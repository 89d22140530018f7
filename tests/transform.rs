use number_pad::pad::{initial_grid, shuffle_pad};
use number_pad::transform::{
    apply_line, flat_cells, line_candidates, rotate_grid, spin_line, spin_whole, whole_candidates,
    whole_transform, CellTransform, Direction, GridTransform, Mirror, SpinAction, Spinner, Step,
    Turn,
};

#[test]
fn spin_whole_never_repeats_current() {
    for i in 0..8 {
        let current = whole_transform(i);
        for _ in 0..50 {
            let (next, counter) = spin_whole(current);
            assert_ne!(next, current);
            assert!((0..8).any(|j| whole_transform(j) == next));
            assert_eq!(counter, next.counter_steps());
        }
    }
}

#[test]
fn whole_catalogue_is_distinct() {
    for i in 0..8 {
        for j in 0..8 {
            assert_eq!(i == j, whole_transform(i) == whole_transform(j));
        }
    }
    assert_eq!(
        whole_transform(6),
        GridTransform { quarter_turns: 1, mirror: Mirror::FlipY }
    );
    assert_eq!(whole_candidates(whole_transform(0)).len(), 7);
}

#[test]
fn line_candidates_skip_current() {
    let row = line_candidates(true, Turn::AboutX(180));
    assert_eq!(row, vec![Turn::Flat, Turn::AboutX(360), Turn::AboutX(-180)]);
    let col = line_candidates(false, Turn::AboutX(180));
    assert_eq!(col.len(), 4);
}

#[test]
fn counter_turn_is_inverse() {
    assert_eq!(Turn::AboutX(180).inverse(), Turn::AboutX(-180));
    assert_eq!(Turn::AboutY(-180).inverse(), Turn::AboutY(180));
    assert_eq!(Turn::AboutY(360).inverse(), Turn::AboutY(-360));
    assert_eq!(Turn::Flat.inverse(), Turn::Flat);
}

#[test]
fn apply_line_touches_one_column() {
    let cells = flat_cells();
    let out = apply_line(&cells, false, 1, Turn::AboutY(180));
    let turned = CellTransform { turn: Turn::AboutY(180), counter: Turn::AboutY(-180) };
    for k in 0..9 {
        if k % 3 == 1 {
            assert_eq!(out[k], turned);
        } else {
            assert_eq!(out[k], cells[k]);
        }
    }
}

#[test]
fn spin_line_changes_exactly_one_line() {
    let mut cells = flat_cells();
    for _ in 0..50 {
        let next = spin_line(&cells);
        let lines: Vec<[usize; 3]> = vec![
            [0, 1, 2],
            [3, 4, 5],
            [6, 7, 8],
            [0, 3, 6],
            [1, 4, 7],
            [2, 5, 8],
        ];
        let fits = lines.iter().any(|line| {
            let t = next[line[0]];
            line.iter().all(|&k| next[k] == t)
                && t.counter == t.turn.inverse()
                && t.turn != cells[line[0]].turn
                && (0..9).all(|k| line.contains(&k) || next[k] == cells[k])
        });
        assert!(fits);
        cells = next;
    }
}

#[test]
fn rotations_shift_rows_and_columns() {
    let grid = initial_grid();
    assert_eq!(grid, vec![1, 2, 3, 4, 5, 6, 7, 8, 9]);
    assert_eq!(
        rotate_grid(&grid, Direction::RowRight),
        vec![3, 1, 2, 6, 4, 5, 9, 7, 8]
    );
    assert_eq!(
        rotate_grid(&grid, Direction::ColDown),
        vec![7, 8, 9, 1, 2, 3, 4, 5, 6]
    );
}

#[test]
fn spinner_locks_while_rotating() {
    let grid = initial_grid();
    let mut spinner = Spinner::new();
    assert!(spinner.begin(Direction::ColDown));
    assert!(spinner.animating());
    assert!(!spinner.begin(Direction::RowRight));
    assert_eq!(spinner.spin(whole_transform(0)), SpinAction::Ignored);
    assert_eq!(spinner.pending(), Some(Direction::ColDown));
    let out = spinner.commit(&grid);
    assert_eq!(out, vec![7, 8, 9, 1, 2, 3, 4, 5, 6]);
    assert!(!spinner.animating());
    assert_eq!(spinner.commit(&grid), grid);
}

#[test]
fn spinner_spin_either_turns_or_rotates() {
    let current = whole_transform(3);
    for _ in 0..50 {
        let mut spinner = Spinner::new();
        match spinner.spin(current) {
            SpinAction::Whole(t) => {
                assert_ne!(t, current);
                assert!(!spinner.animating());
            }
            SpinAction::Rotate(d) => assert_eq!(spinner.pending(), Some(d)),
            SpinAction::Ignored => panic!("an idle spinner must act"),
        }
    }
}

#[test]
fn shuffle_gives_a_different_permutation() {
    let grid = initial_grid();
    for _ in 0..50 {
        let out = shuffle_pad(&grid);
        assert_ne!(out, grid);
        let mut sorted = out.clone();
        sorted.sort();
        assert_eq!(sorted, grid);
    }
}

#[test]
fn grid_counter_undoes_steps_in_reverse() {
    let t = GridTransform { quarter_turns: 1, mirror: Mirror::FlipY };
    assert_eq!(t.steps(), vec![Step::Planar(90), Step::AboutY(180)]);
    assert_eq!(t.counter_steps(), vec![Step::AboutY(-180), Step::Planar(-90)]);
    let flat = whole_transform(0);
    assert!(flat.steps().is_empty());
    assert!(flat.counter_steps().is_empty());
    let half = whole_transform(2);
    assert_eq!(half.steps(), vec![Step::Planar(180)]);
    assert_eq!(half.counter_steps(), vec![Step::Planar(-180)]);
}

#[test]
fn spin_with_follows_the_draws() {
    let next = whole_transform(5);
    let mut spinner = Spinner::new();
    assert_eq!(spinner.spin_with(false, Direction::ColDown, next), SpinAction::Whole(next));
    assert!(!spinner.animating());
    assert_eq!(
        spinner.spin_with(true, Direction::ColDown, next),
        SpinAction::Rotate(Direction::ColDown)
    );
    assert_eq!(spinner.pending(), Some(Direction::ColDown));
    assert_eq!(spinner.spin_with(true, Direction::RowRight, next), SpinAction::Ignored);
    assert_eq!(spinner.spin_with(false, Direction::RowRight, next), SpinAction::Ignored);
    assert_eq!(spinner.pending(), Some(Direction::ColDown));
    let mut other = Spinner::new();
    assert_eq!(
        other.spin_with(true, Direction::RowRight, next),
        SpinAction::Rotate(Direction::RowRight)
    );
    assert_eq!(other.pending(), Some(Direction::RowRight));
}
