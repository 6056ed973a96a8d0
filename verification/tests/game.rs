use braille_life::game::GameOfLife;

fn top_two_rows_alive() -> GameOfLife {
    let mut game = GameOfLife::new((3, 3));
    game.set(0, 0, true);
    game.set(1, 0, true);
    game.set(2, 0, true);

    game.set(0, 1, true);
    game.set(1, 1, true);
    game.set(2, 1, true);
    game
}

#[test]
fn test_count_neighbors() {
    let mut game = GameOfLife::new((3, 3));
    game.set(0, 0, true);
    game.set(1, 0, true);
    game.set(2, 0, true);

    game.set(0, 1, true);
    game.set(1, 1, true);
    game.set(2, 1, true);
    let neighbors = GameOfLife::count_neighbors(&game, 1, 1);
    assert_eq!(neighbors, 5);
}

#[test]
fn test_new_len_matches_dimensions() {
    for &(w, h) in &[(1, 1), (3, 3), (2, 6), (10, 9), (7, 1)] {
        let game = GameOfLife::new((w, h));
        assert_eq!(game.size(), (w, h));
        assert_eq!(game.surface().len(), w * h);
    }
}

#[test]
fn test_new_grid_is_all_dead() {
    let game = GameOfLife::new((4, 6));
    assert!(game.surface().iter().all(|&c| !c));
}

#[test]
fn test_get_set_roundtrip() {
    let mut game = GameOfLife::new((3, 3));
    assert!(!game.get(2, 1));
    game.set(2, 1, true);
    assert!(game.get(2, 1));
    assert!(!game.get(1, 2));
    game.set(2, 1, false);
    assert!(!game.get(2, 1));
}

#[test]
fn test_corner_counts_only_in_bounds_neighbors() {
    // All nine cells alive: the corner has three in-bounds neighbors,
    // and the count never reaches outside the grid or onto the corner
    // itself.
    let mut game = GameOfLife::new((3, 3));
    for y in 0..3 {
        for x in 0..3 {
            game.set(x, y, true);
        }
    }
    assert_eq!(game.count_neighbors(0, 0), 3);
    assert_eq!(game.count_neighbors(2, 2), 3);
    assert_eq!(game.count_neighbors(1, 0), 5);
    assert_eq!(game.count_neighbors(1, 1), 8);
}

#[test]
fn test_center_cell_not_counted() {
    let mut game = top_two_rows_alive();
    let with_center = game.count_neighbors(1, 1);
    game.set(1, 1, false);
    let without_center = game.count_neighbors(1, 1);
    assert_eq!(with_center, without_center);
}

#[test]
fn test_dead_grid_stays_dead() {
    let mut game = GameOfLife::new((6, 6));
    game.step();
    assert!(game.surface().iter().all(|&c| !c));
}

#[test]
fn test_step_is_deterministic() {
    let mut a = top_two_rows_alive();
    let mut b = top_two_rows_alive();
    a.step();
    b.step();
    assert_eq!(a.surface(), b.surface());
    assert_eq!(a.size(), b.size());
}

#[test]
fn test_lone_cell_dies_of_underpopulation() {
    let mut game = GameOfLife::new((5, 5));
    game.set(2, 2, true);
    game.step();
    assert!(!game.get(2, 2));
    assert!(game.surface().iter().all(|&c| !c));
}

#[test]
fn test_cell_with_four_neighbors_dies_of_overpopulation() {
    // The center is alive with exactly four alive neighbors, one in
    // each corner of its neighborhood.
    let mut game = GameOfLife::new((5, 5));
    game.set(2, 2, true);
    game.set(1, 1, true);
    game.set(3, 1, true);
    game.set(1, 3, true);
    game.set(3, 3, true);
    assert_eq!(game.count_neighbors(2, 2), 4);
    game.step();
    assert!(!game.get(2, 2));
}

#[test]
fn test_birth_with_three_neighbors() {
    let mut game = GameOfLife::new((5, 5));
    game.set(1, 1, true);
    game.set(2, 1, true);
    game.set(1, 2, true);
    assert!(!game.get(2, 2));
    game.step();
    assert!(game.get(2, 2));
}

#[test]
fn test_block_is_still_life() {
    let mut game = GameOfLife::new((4, 4));
    game.set(1, 1, true);
    game.set(2, 1, true);
    game.set(1, 2, true);
    game.set(2, 2, true);
    let before: Vec<bool> = game.surface().to_vec();
    game.step();
    assert_eq!(game.surface(), &before[..]);
}

#[test]
fn test_blinker_oscillates() {
    let mut game = GameOfLife::new((5, 5));
    game.set(1, 2, true);
    game.set(2, 2, true);
    game.set(3, 2, true);
    game.step();
    assert!(game.get(2, 1));
    assert!(game.get(2, 2));
    assert!(game.get(2, 3));
    assert!(!game.get(1, 2));
    assert!(!game.get(3, 2));
    game.step();
    assert!(game.get(1, 2));
    assert!(game.get(2, 2));
    assert!(game.get(3, 2));
}

#[test]
fn test_init_keeps_dimensions() {
    let mut game = GameOfLife::new((8, 9));
    game.init();
    assert_eq!(game.size(), (8, 9));
    assert_eq!(game.surface().len(), 72);
}
