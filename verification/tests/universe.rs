use game_of_life::universe::Universe;

fn dead_seed() -> Vec<bool> {
    vec![false; 64 * 64]
}

fn alive_seed() -> Vec<bool> {
    vec![true; 64 * 64]
}

fn alive(u: &Universe, row: u32, col: u32) -> bool {
    u.get_cells().contains((row * u.width() + col) as usize)
}

fn live_cells(u: &Universe) -> Vec<(u32, u32)> {
    let mut out = Vec::new();
    for row in 0..u.height() {
        for col in 0..u.width() {
            if alive(u, row, col) {
                out.push((row, col));
            }
        }
    }
    out
}

fn small_grid(width: u32, height: u32) -> Universe {
    let mut u = Universe::new(dead_seed());
    u.set_width(width);
    u.set_height(height);
    u
}

#[test]
fn new_takes_seed_row_major() {
    let mut seed = vec![false; 64 * 64];
    seed[0] = true;
    seed[1 * 64 + 2] = true;
    seed[63 * 64 + 63] = true;
    let u = Universe::new(seed);
    assert_eq!(u.width(), 64);
    assert_eq!(u.height(), 64);
    assert_eq!(u.get_cells().len(), 64 * 64);
    assert!(alive(&u, 0, 0));
    assert!(alive(&u, 1, 2));
    assert!(alive(&u, 63, 63));
    assert_eq!(live_cells(&u).len(), 3);
}

#[test]
fn toggle_cell_is_its_own_inverse() {
    let mut seed = vec![false; 64 * 64];
    for i in 0..seed.len() {
        seed[i] = i % 3 == 0;
    }
    let mut u = Universe::new(seed);
    let before = live_cells(&u);
    let was_alive = alive(&u, 7, 9);
    u.toggle_cell(7, 9);
    assert_eq!(alive(&u, 7, 9), !was_alive);
    u.toggle_cell(7, 9);
    assert_eq!(live_cells(&u), before);
}

#[test]
fn toggle_cell_touches_only_one_cell() {
    let mut u = Universe::new(dead_seed());
    u.toggle_cell(0, 0);
    u.toggle_cell(63, 63);
    assert_eq!(live_cells(&u), vec![(0, 0), (63, 63)]);
}

#[test]
fn tick_on_all_dead_grid_stays_all_dead() {
    let mut u = Universe::new(dead_seed());
    u.tick();
    assert!(live_cells(&u).is_empty());
}

#[test]
fn lone_live_cell_dies_of_underpopulation() {
    let mut u = Universe::new(dead_seed());
    u.toggle_cell(10, 10);
    assert_eq!(live_cells(&u), vec![(10, 10)]);
    u.tick();
    assert!(live_cells(&u).is_empty());
}

#[test]
fn blinker_oscillates_with_period_two() {
    let mut u = small_grid(5, 5);
    u.set_cells(&[(1, 2), (2, 2), (3, 2)]);
    u.tick();
    assert_eq!(live_cells(&u), vec![(2, 1), (2, 2), (2, 3)]);
    u.tick();
    assert_eq!(live_cells(&u), vec![(1, 2), (2, 2), (3, 2)]);
}

#[test]
fn glider_translates_by_one_one_after_four_ticks() {
    let mut u = small_grid(20, 20);
    u.insert_glider(5, 5);
    let before = live_cells(&u);
    assert_eq!(before.len(), 5);
    for _ in 0..4 {
        u.tick();
    }
    let moved: Vec<(u32, u32)> = before.iter().map(|&(r, c)| (r + 1, c + 1)).collect();
    let mut after = live_cells(&u);
    after.sort();
    let mut expected = moved.clone();
    expected.sort();
    assert_eq!(after, expected);
}

#[test]
fn set_width_clears_grid_to_sized_all_dead() {
    let mut u = Universe::new(alive_seed());
    u.set_width(10);
    assert_eq!(u.width(), 10);
    assert_eq!(u.height(), 64);
    assert_eq!(u.get_cells().len(), 10 * 64);
    assert!(live_cells(&u).is_empty());
}

#[test]
fn set_height_clears_grid_to_sized_all_dead() {
    let mut u = Universe::new(alive_seed());
    u.set_height(3);
    assert_eq!(u.width(), 64);
    assert_eq!(u.height(), 3);
    assert_eq!(u.get_cells().len(), 64 * 3);
    assert!(live_cells(&u).is_empty());
}

#[test]
fn full_grid_counts_eight_neighbors_everywhere() {
    let u = Universe::new(alive_seed());
    for &(row, col) in &[(0, 0), (0, 63), (63, 0), (63, 63), (31, 31), (0, 31), (31, 0)] {
        assert_eq!(u.live_neighbor_count(row, col), 8);
    }
}

#[test]
fn tiny_grids_count_themselves_through_wraparound() {
    let mut one = small_grid(1, 1);
    one.set_cells(&[(0, 0)]);
    assert_eq!(one.live_neighbor_count(0, 0), 8);

    let mut two = small_grid(2, 2);
    two.set_cells(&[(0, 0), (0, 1), (1, 0), (1, 1)]);
    for row in 0..2 {
        for col in 0..2 {
            assert_eq!(two.live_neighbor_count(row, col), 8);
        }
    }
}

#[test]
fn neighbor_count_sees_wrapped_corner() {
    let mut u = small_grid(5, 5);
    u.set_cells(&[(0, 0)]);
    assert_eq!(u.live_neighbor_count(4, 4), 1);
    assert_eq!(u.live_neighbor_count(0, 4), 1);
    assert_eq!(u.live_neighbor_count(4, 0), 1);
    assert_eq!(u.live_neighbor_count(1, 1), 1);
    assert_eq!(u.live_neighbor_count(2, 2), 0);
    assert_eq!(u.live_neighbor_count(0, 0), 0);
}

#[test]
fn set_cells_marks_listed_and_keeps_the_rest() {
    let mut seed = vec![false; 64 * 64];
    seed[5 * 64 + 5] = true;
    seed[6 * 64 + 6] = true;
    let mut u = Universe::new(seed);
    u.set_cells(&[(1, 1), (2, 3)]);
    assert!(alive(&u, 1, 1));
    assert!(alive(&u, 2, 3));
    assert!(alive(&u, 5, 5));
    assert!(alive(&u, 6, 6));
    assert_eq!(live_cells(&u).len(), 4);
}

#[test]
fn set_cells_leaves_already_live_cells_alive() {
    let mut u = Universe::new(alive_seed());
    u.set_cells(&[(0, 0), (63, 63)]);
    assert_eq!(live_cells(&u).len(), 64 * 64);
}

#[test]
fn block_is_a_still_life() {
    let mut u = small_grid(6, 6);
    u.set_cells(&[(1, 1), (1, 2), (2, 1), (2, 2)]);
    let before = live_cells(&u);
    u.tick();
    assert_eq!(live_cells(&u), before);
}

#[test]
fn three_neighbors_give_birth_and_four_kill() {
    let mut u = small_grid(8, 8);
    // An L of three live cells: the empty corner at (2, 2) has exactly three
    // live neighbors and is born; (1, 2) survives with two.
    u.set_cells(&[(1, 1), (1, 2), (2, 1)]);
    assert_eq!(u.live_neighbor_count(2, 2), 3);
    u.tick();
    assert!(alive(&u, 2, 2));
    assert_eq!(live_cells(&u), vec![(1, 1), (1, 2), (2, 1), (2, 2)]);

    // A plus of five live cells: the center has four live neighbors and dies.
    let mut v = small_grid(9, 9);
    v.set_cells(&[(3, 4), (4, 3), (4, 4), (4, 5), (5, 4)]);
    assert_eq!(v.live_neighbor_count(4, 4), 4);
    v.tick();
    assert!(!alive(&v, 4, 4));
}

#[test]
fn insert_glider_stamps_exact_pattern() {
    let mut u = Universe::new(alive_seed());
    u.insert_glider(2, 2);
    let pattern: [[u8; 5]; 5] = [
        [0, 0, 0, 0, 0],
        [0, 0, 1, 0, 0],
        [0, 0, 0, 1, 0],
        [0, 1, 1, 1, 0],
        [0, 0, 0, 0, 0],
    ];
    for dr in 0..5u32 {
        for dc in 0..5u32 {
            assert_eq!(alive(&u, dr, dc), pattern[dr as usize][dc as usize] == 1);
        }
    }
    // Outside the footprint the grid is untouched.
    assert_eq!(live_cells(&u).len(), 64 * 64 - 25 + 5);
    assert!(alive(&u, 5, 5));
    assert!(alive(&u, 63, 63));
}

#[test]
fn insert_glider_wraps_around_the_torus() {
    let mut u = Universe::new(dead_seed());
    u.insert_glider(0, 0);
    let mut got = live_cells(&u);
    got.sort();
    let mut expected = vec![(63, 0), (0, 1), (1, 63), (1, 0), (1, 1)];
    expected.sort();
    assert_eq!(got, expected);
}

#[test]
fn insert_pulsar_stamps_exact_pattern() {
    let mut u = Universe::new(alive_seed());
    u.insert_pulsar(7, 7);
    let rows: [&[u8; 15]; 15] = [
        &[0, 0, 0, 0, 0, 0, 0, 0, 0, 0, 0, 0, 0, 0, 0],
        &[0, 0, 0, 1, 1, 1, 0, 0, 0, 1, 1, 1, 0, 0, 0],
        &[0, 0, 0, 0, 0, 0, 0, 0, 0, 0, 0, 0, 0, 0, 0],
        &[0, 1, 0, 0, 0, 0, 1, 0, 1, 0, 0, 0, 0, 1, 0],
        &[0, 1, 0, 0, 0, 0, 1, 0, 1, 0, 0, 0, 0, 1, 0],
        &[0, 1, 0, 0, 0, 0, 1, 0, 1, 0, 0, 0, 0, 1, 0],
        &[0, 0, 0, 1, 1, 1, 0, 0, 0, 1, 1, 1, 0, 0, 0],
        &[0, 0, 0, 0, 0, 0, 0, 0, 0, 0, 0, 0, 0, 0, 0],
        &[0, 0, 0, 1, 1, 1, 0, 0, 0, 1, 1, 1, 0, 0, 0],
        &[0, 1, 0, 0, 0, 0, 1, 0, 1, 0, 0, 0, 0, 1, 0],
        &[0, 1, 0, 0, 0, 0, 1, 0, 1, 0, 0, 0, 0, 1, 0],
        &[0, 1, 0, 0, 0, 0, 1, 0, 1, 0, 0, 0, 0, 1, 0],
        &[0, 0, 0, 0, 0, 0, 0, 0, 0, 0, 0, 0, 0, 0, 0],
        &[0, 0, 0, 1, 1, 1, 0, 0, 0, 1, 1, 1, 0, 0, 0],
        &[0, 0, 0, 0, 0, 0, 0, 0, 0, 0, 0, 0, 0, 0, 0],
    ];
    for dr in 0..15u32 {
        for dc in 0..15u32 {
            assert_eq!(alive(&u, dr, dc), rows[dr as usize][dc as usize] == 1, "at {dr},{dc}");
        }
    }
    assert!(alive(&u, 20, 20));
}

#[test]
fn pulsar_oscillates_with_period_three() {
    let mut u = small_grid(17, 17);
    u.insert_pulsar(8, 8);
    let start = live_cells(&u);
    u.tick();
    assert_ne!(live_cells(&u), start);
    u.tick();
    u.tick();
    assert_eq!(live_cells(&u), start);
}

#[test]
fn render_paints_rows_of_glyphs() {
    let mut u = small_grid(2, 2);
    u.toggle_cell(0, 0);
    assert_eq!(u.render(), "◼◻\n◻◻\n");
    let mut v = small_grid(3, 1);
    v.set_cells(&[(0, 1)]);
    assert_eq!(v.render(), "◻◼◻\n");
}
