use rust_life_game::LifeGame;

#[test]
fn new_grid_is_all_dead() {
    let g = LifeGame::new(3, 2);
    assert_eq!(g.name(), "");
    assert_eq!(g.width(), 3);
    assert_eq!(g.height(), 2);
    assert_eq!(
        g.cells_iter(),
        vec![vec![false, false, false], vec![false, false, false]]
    );
}

#[test]
fn advance_all_dead_returns_unchanged() {
    for (w, h) in [(0, 0), (1, 1), (0, 4), (5, 3)] {
        let mut g = LifeGame::new(w, h);
        let before = g.cells_iter();
        assert_eq!(g.next(), None, "w={w} h={h}");
        assert_eq!(g.cells_iter(), before, "w={w} h={h}");
    }
}

#[test]
fn transition_rule_enumeration() {
    // All eight neighbors of the center cell of a 3x3 grid.
    let neighbors = [
        (0, 0),
        (1, 0),
        (2, 0),
        (0, 1),
        (2, 1),
        (0, 2),
        (1, 2),
        (2, 2),
    ];
    for v in [0u8, 1u8] {
        for n in 0..=8usize {
            let mut g = LifeGame::new(3, 3);
            let mut points = neighbors[..n].to_vec();
            if v == 1 {
                points.push((1, 1));
            }
            g.set_alives(&points);
            g.next();
            let expected = (v == 0 && n == 3) || (v == 1 && (n == 2 || n == 3));
            assert_eq!(g.cells_iter()[1][1], expected, "v={v} n={n}");
        }
    }
}

#[test]
fn seed_round_trip() {
    let g = LifeGame::from("demo", &[vec![0, 1, 0], vec![1, 0, 1]]).unwrap();
    assert_eq!(g.name(), "demo");
    assert_eq!(g.width(), 3);
    assert_eq!(g.height(), 2);
    assert_eq!(
        g.cells_iter(),
        vec![vec![false, true, false], vec![true, false, true]]
    );
}

#[test]
fn jagged_seed_truncates_to_min_width() {
    let g = LifeGame::from("jagged", &[vec![1, 1, 1], vec![1, 1]]).unwrap();
    assert_eq!(g.width(), 2);
    assert_eq!(g.height(), 2);
    assert_eq!(g.cells_iter(), vec![vec![true, true], vec![true, true]]);
}

#[test]
fn empty_seed_is_rejected() {
    let rows: Vec<Vec<u8>> = Vec::new();
    assert!(LifeGame::from("empty", &rows).is_err());
}

#[test]
fn still_life_block_is_stable() {
    let mut g = LifeGame::new(4, 4);
    g.set_alives(&[(1, 1), (1, 2), (2, 1), (2, 2)]);
    let before = g.cells_iter();
    assert_eq!(g.next(), None);
    assert_eq!(g.cells_iter(), before);
}

#[test]
fn stability_signal_is_idempotent() {
    let mut g = LifeGame::new(4, 4);
    g.set_alives(&[(1, 1), (1, 2), (2, 1), (2, 2)]);
    let before = g.cells_iter();
    for _ in 0..4 {
        assert_eq!(g.next(), None);
        assert_eq!(g.cells_iter(), before);
    }
}

#[test]
fn blinker_oscillates_with_period_two() {
    let vertical = vec![
        vec![false, true, false],
        vec![false, true, false],
        vec![false, true, false],
    ];
    let horizontal = vec![
        vec![false, false, false],
        vec![true, true, true],
        vec![false, false, false],
    ];
    let mut g = LifeGame::from("blinker", &[vec![0, 1, 0], vec![0, 1, 0], vec![0, 1, 0]]).unwrap();
    assert_eq!(g.cells_iter(), vertical);
    assert_eq!(g.next(), Some(()));
    assert_eq!(g.cells_iter(), horizontal);
    assert_eq!(g.next(), Some(()));
    assert_eq!(g.cells_iter(), vertical);
}

#[test]
fn corner_cell_with_two_live_neighbors_survives() {
    let mut g = LifeGame::new(2, 2);
    g.set_alives(&[(0, 0), (1, 0), (0, 1)]);
    g.next();
    assert!(g.cells_iter()[0][0]);
}

#[test]
fn no_wraparound_on_a_single_row() {
    // With wraparound the end cells would see each other and survive;
    // on the finite plane each end cell has one live neighbor and dies.
    let mut g = LifeGame::from("row", &[vec![1, 1, 1]]).unwrap();
    assert_eq!(g.next(), Some(()));
    assert_eq!(g.cells_iter(), vec![vec![false, true, false]]);
}

#[test]
fn set_alives_marks_only_the_named_cells() {
    let mut g = LifeGame::new(3, 2);
    g.set_alives(&[(0, 0), (2, 1)]);
    assert_eq!(
        g.cells_iter(),
        vec![vec![true, false, false], vec![false, false, true]]
    );
}

#[test]
fn lone_cell_dies_then_grid_is_stable() {
    let mut g = LifeGame::new(3, 3);
    g.set_alives(&[(1, 1)]);
    assert_eq!(g.next(), Some(()));
    assert!(g.cells_iter().iter().all(|row| row.iter().all(|&c| !c)));
    assert_eq!(g.next(), None);
}

#[test]
fn getters_report_label_and_dimensions() {
    let g = LifeGame::from("OCTAGON", &[vec![0, 0], vec![1, 1]]).unwrap();
    assert_eq!(g.name(), "OCTAGON");
    assert_eq!(g.width(), 2);
    assert_eq!(g.height(), 2);
    let e = LifeGame::new(7, 4);
    assert_eq!(e.name(), "");
    assert_eq!(e.width(), 7);
    assert_eq!(e.height(), 4);
}
