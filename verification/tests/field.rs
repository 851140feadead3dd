use mnswpr::cell::{Cell, Content, State};
use mnswpr::field::Field;

/// One draw per cell: 1 (a mine at any percentage from 1 on) at the given
/// positions, 100 (never a mine) elsewhere.
fn draws_with_mines(rows: usize, cols: usize, mines: &[(usize, usize)]) -> Vec<u8> {
    let mut draws = vec![100u8; rows * cols];
    for &(r, c) in mines {
        draws[r * cols + c] = 1;
    }
    draws
}

/// A field with mines at the given positions; the safe zone is put around
/// `safe`.
fn field_with_mines(
    rows: usize,
    cols: usize,
    mines: &[(usize, usize)],
    safe: (usize, usize),
) -> Field {
    let mut field = Field::new(rows, cols);
    let draws = draws_with_mines(rows, cols, mines);
    field.lay_mines(&draws, 50, safe.0, safe.1);
    field
}

fn brute_force_mines_around(field: &Field, row: usize, col: usize) -> usize {
    let mut count = 0;
    for dr in -1i64..=1 {
        for dc in -1i64..=1 {
            if dr == 0 && dc == 0 {
                continue;
            }
            let r = row as i64 + dr;
            let c = col as i64 + dc;
            if r < 0 || c < 0 {
                continue;
            }
            if let Some(cell) = field.get(r as usize, c as usize) {
                if cell.content == Content::Mine {
                    count += 1;
                }
            }
        }
    }
    count
}

fn count_cells(field: &Field, pred: fn(&Cell) -> bool) -> usize {
    let mut count = 0;
    for r in 0..field.rows() {
        for c in 0..field.cols() {
            if pred(field.get(r, c).unwrap()) {
                count += 1;
            }
        }
    }
    count
}

fn states(field: &Field) -> Vec<State> {
    let mut all = Vec::new();
    for r in 0..field.rows() {
        for c in 0..field.cols() {
            all.push(field.get(r, c).unwrap().state);
        }
    }
    all
}

fn assert_consistent(field: &Field) {
    assert_eq!(
        field.closed_empty_cells(),
        count_cells(field, |c| c.state != State::Open && c.content == Content::Empty)
    );
    assert_eq!(field.flag_count(), count_cells(field, |c| c.state == State::Flagged));
    assert_eq!(field.mine_count(), count_cells(field, |c| c.content == Content::Mine));
    assert!(field.flag_count() <= field.mine_count());
    for r in 0..field.rows() {
        for c in 0..field.cols() {
            assert_eq!(
                field.get(r, c).unwrap().neighbouring_bomb_count,
                brute_force_mines_around(field, r, c)
            );
        }
    }
}

#[test]
fn new_field_is_blank() {
    let field = Field::new(3, 4);
    assert_eq!(field.rows(), 3);
    assert_eq!(field.cols(), 4);
    assert_eq!(field.closed_empty_cells(), 12);
    assert_eq!(field.mine_count(), 0);
    assert_eq!(field.flag_count(), 0);
    for r in 0..3 {
        for c in 0..4 {
            let cell = field.get(r, c).unwrap();
            assert_eq!(cell.state, State::Closed);
            assert_eq!(cell.content, Content::Empty);
            assert_eq!(cell.neighbouring_bomb_count, 0);
        }
    }
}

#[test]
fn new_takes_a_zero_side_as_one() {
    let field = Field::new(0, 0);
    assert_eq!(field.rows(), 1);
    assert_eq!(field.cols(), 1);
    assert_eq!(field.closed_empty_cells(), 1);
    let field = Field::new(0, 5);
    assert_eq!((field.rows(), field.cols()), (1, 5));
    let field = Field::new(7, 0);
    assert_eq!((field.rows(), field.cols()), (7, 1));
}

#[test]
fn cell_defaults() {
    let cell = Cell::default();
    assert_eq!(cell.state, State::Closed);
    assert_eq!(cell.content, Content::Empty);
    assert_eq!(cell.neighbouring_bomb_count, 0);
    assert_eq!(State::default(), State::Closed);
    assert_eq!(Content::default(), Content::Empty);
}

#[test]
fn cell_set_state_and_predicates() {
    let mut cell = Cell::default();
    assert!(cell.is_closed() && !cell.is_open() && !cell.is_flagged());
    assert!(cell.is_empty() && !cell.contains_mine());
    cell.set_state(State::Flagged);
    assert!(cell.is_flagged() && !cell.is_closed());
    assert_eq!(cell.content, Content::Empty);
    cell.set_state(State::Open);
    assert!(cell.is_open());
    cell.content = Content::Mine;
    assert!(cell.contains_mine() && !cell.is_empty());
}

#[test]
fn get_reports_absence_off_the_field() {
    let mut field = Field::new(3, 4);
    assert!(field.get(2, 3).is_some());
    assert!(field.get(3, 0).is_none());
    assert!(field.get(0, 4).is_none());
    assert!(field.get(usize::MAX, usize::MAX).is_none());
    assert!(field.get_mut(3, 0).is_none());
    assert!(field.get_mut(0, 4).is_none());
    assert!(field.get_mut(2, 3).is_some());
    assert_eq!(field.uncover_at(3, 0), None);
    assert_eq!(field.uncover_at(0, 4), None);
    assert_eq!(field.toggle_flag_at(3, 0), None);
    assert_eq!(field.toggle_flag_at(0, 4), None);
    assert_eq!(field.get_flagged_nbors_amt(3, 3), None);
    assert_eq!(field.get_non_open_nbors_amt(0, 4), None);
    assert_eq!(field.uncover_around_cell_at(3, 4), None);
    assert!(!field.unflag_all_closed_around(3, 4));
    assert!(states(&field).iter().all(|s| *s == State::Closed));
}

#[test]
fn get_is_row_major() {
    let field = field_with_mines(3, 4, &[(1, 3), (2, 0)], (0, 0));
    for r in 0..3 {
        for c in 0..4 {
            let mine = (r, c) == (1, 3) || (r, c) == (2, 0);
            assert_eq!(field.get(r, c).unwrap().contains_mine(), mine);
            assert_eq!(field.get_unchecked(r, c).contains_mine(), mine);
        }
    }
}

#[test]
fn get_mut_writes_one_cell() {
    let mut field = Field::new(2, 2);
    field.get_mut(1, 0).unwrap().set_state(State::Open);
    field.get_mut_unchecked(0, 1).neighbouring_bomb_count = 5;
    assert_eq!(field.get(1, 0).unwrap().state, State::Open);
    assert_eq!(field.get(0, 1).unwrap().neighbouring_bomb_count, 5);
    assert_eq!(field.get(0, 0).unwrap().state, State::Closed);
    assert_eq!(field.get(1, 1).unwrap().state, State::Closed);
    assert_eq!(field.get(1, 1).unwrap().neighbouring_bomb_count, 0);
}

#[test]
fn lay_mines_follows_the_draws() {
    let mut field = Field::new(4, 5);
    let mut draws = vec![100u8; 20];
    draws[0] = 1; // in the safe zone around (1, 1)
    draws[3] = 30; // at the percentage
    draws[4] = 31; // above it
    draws[12] = 1; // (2, 2): in the safe zone
    draws[13] = 1; // (2, 3): outside
    draws[19] = 0;
    field.lay_mines(&draws, 30, 1, 1);
    let mines: Vec<(usize, usize)> = vec![(0, 3), (2, 3), (3, 4)];
    for r in 0..4 {
        for c in 0..5 {
            let cell = field.get(r, c).unwrap();
            assert_eq!(cell.state, State::Closed);
            assert_eq!(cell.contains_mine(), mines.contains(&(r, c)), "at {r}, {c}");
        }
    }
    assert_eq!(field.mine_count(), 3);
    assert_eq!(field.closed_empty_cells(), 17);
    assert_eq!(field.flag_count(), 0);
    assert_eq!(field.get(1, 3).unwrap().neighbouring_bomb_count, 2);
    assert_eq!(field.get(1, 4).unwrap().neighbouring_bomb_count, 2);
    assert_eq!(field.get(2, 4).unwrap().neighbouring_bomb_count, 2);
    assert_eq!(field.get(3, 3).unwrap().neighbouring_bomb_count, 2);
    assert_eq!(field.get(0, 0).unwrap().neighbouring_bomb_count, 0);
    assert_eq!(field.get(2, 3).unwrap().neighbouring_bomb_count, 1);
    assert_consistent(&field);
}

#[test]
fn lay_mines_caps_the_percentage_at_99() {
    let mut field = Field::new(1, 6);
    let draws = vec![100u8, 99, 100, 99, 100, 99];
    field.lay_mines(&draws, 100, 0, 0);
    // (0, 0) and (0, 1) are in the safe zone
    let expected = [false, false, false, true, false, true];
    for c in 0..6 {
        assert_eq!(field.get(0, c).unwrap().contains_mine(), expected[c]);
    }
    let mut field = Field::new(1, 6);
    field.lay_mines(&draws, 255, 0, 0);
    for c in 0..6 {
        assert_eq!(field.get(0, c).unwrap().contains_mine(), expected[c]);
    }
    let mut field = Field::new(1, 6);
    field.lay_mines(&draws, 0, 0, 0);
    assert_eq!(field.mine_count(), 0);
}

#[test]
fn lay_mines_closes_every_cell_and_keeps_the_flag_tally() {
    let mut field = field_with_mines(3, 3, &[(2, 2)], (0, 0));
    assert_eq!(field.toggle_flag_at(2, 2), Some(()));
    assert_eq!(field.uncover_at(0, 0), Some(false));
    assert_eq!(field.flag_count(), 1);
    let draws = draws_with_mines(3, 3, &[(0, 0)]);
    field.lay_mines(&draws, 10, 2, 2);
    assert!(states(&field).iter().all(|s| *s == State::Closed));
    assert_eq!(field.flag_count(), 1);
    assert_eq!(field.mine_count(), 1);
    assert_eq!(field.closed_empty_cells(), 8);
}

#[test]
fn randomize_keeps_the_safe_zone_free() {
    for &(sr, sc) in &[(0usize, 0usize), (5, 5), (9, 11), (0, 11), (4, 0)] {
        let mut field = Field::new(10, 12);
        field.randomize(99, sr, sc);
        for r in 0..10 {
            for c in 0..12 {
                let cell = field.get(r, c).unwrap();
                assert_eq!(cell.state, State::Closed);
                if r.abs_diff(sr) < 2 && c.abs_diff(sc) < 2 {
                    assert_eq!(cell.content, Content::Empty);
                }
            }
        }
        assert_consistent(&field);
        assert_eq!(field.mine_count() + field.closed_empty_cells(), 120);
    }
}

#[test]
fn randomize_counts_match_brute_force() {
    for pct in [0u8, 1, 20, 50, 99, 100, 200] {
        let mut field = Field::new(9, 7);
        field.randomize(pct, 4, 3);
        assert_consistent(&field);
        assert_eq!(field.flag_count(), 0);
    }
}

#[test]
fn randomize_with_zero_percent_lays_no_mine() {
    let mut field = Field::new(8, 8);
    field.randomize(0, 0, 0);
    assert_eq!(field.mine_count(), 0);
    assert_eq!(field.closed_empty_cells(), 64);
}

#[test]
fn randomize_draws_vary() {
    // At 50% on 900 cells both outcomes occur outside the safe zone.
    let mut field = Field::new(30, 30);
    field.randomize(50, 0, 0);
    assert!(field.mine_count() > 0);
    assert!(field.mine_count() < 900 - 4);
}

#[test]
fn randomize_on_single_cell() {
    let mut field = Field::new(1, 1);
    field.randomize(99, 0, 0);
    assert_eq!(field.mine_count(), 0);
    assert_eq!(field.uncover_at(0, 0), Some(false));
    assert_eq!(field.closed_empty_cells(), 0);
}

#[test]
fn reset_gives_back_the_blank_field() {
    let mut field = field_with_mines(4, 4, &[(3, 3), (0, 3)], (1, 1));
    field.toggle_flag_at(3, 3);
    field.uncover_at(1, 1);
    field.reset();
    assert_eq!((field.rows(), field.cols()), (4, 4));
    assert_eq!(field.closed_empty_cells(), 16);
    assert_eq!(field.mine_count(), 0);
    assert_eq!(field.flag_count(), 0);
    for r in 0..4 {
        for c in 0..4 {
            let cell = field.get(r, c).unwrap();
            assert_eq!(cell.state, State::Closed);
            assert_eq!(cell.content, Content::Empty);
            assert_eq!(cell.neighbouring_bomb_count, 0);
        }
    }
}

#[test]
fn reveal_floods_the_whole_board_but_the_mine() {
    let mut field = field_with_mines(5, 5, &[(4, 4)], (0, 0));
    assert_eq!(field.mine_count(), 1);
    assert_eq!(field.closed_empty_cells(), 24);
    assert_eq!(field.uncover_at(0, 0), Some(false));
    for r in 0..5 {
        for c in 0..5 {
            let expected = if (r, c) == (4, 4) { State::Closed } else { State::Open };
            assert_eq!(field.get(r, c).unwrap().state, expected);
        }
    }
    assert_eq!(field.closed_empty_cells(), 0);
    assert_consistent(&field);
}

#[test]
fn reveal_on_a_mine_is_fatal_and_changes_nothing() {
    let mut field = field_with_mines(5, 5, &[(4, 4), (2, 2)], (0, 0));
    field.uncover_at(0, 4);
    let before = states(&field);
    let left = field.closed_empty_cells();
    assert_eq!(field.uncover_at(4, 4), Some(true));
    assert_eq!(states(&field), before);
    assert_eq!(field.closed_empty_cells(), left);
    assert_eq!(field.get(4, 4).unwrap().state, State::Closed);
}

#[test]
fn reveal_on_a_flagged_mine_is_protected() {
    let mut field = field_with_mines(5, 5, &[(4, 4)], (0, 0));
    assert_eq!(field.toggle_flag_at(4, 4), Some(()));
    let before = states(&field);
    assert_eq!(field.uncover_at(4, 4), Some(false));
    assert_eq!(field.get(4, 4).unwrap().state, State::Flagged);
    assert_eq!(states(&field), before);
    assert_eq!(field.flag_count(), 1);
    assert_eq!(field.closed_empty_cells(), 24);
}

#[test]
fn reveal_stops_at_numbered_cells() {
    // . . . . .
    // . . . . .
    // * * * * *
    // . . . . .
    let mut field = field_with_mines(4, 5, &[(2, 0), (2, 1), (2, 2), (2, 3), (2, 4)], (0, 2));
    assert_eq!(field.uncover_at(0, 2), Some(false));
    for c in 0..5 {
        assert_eq!(field.get(0, c).unwrap().state, State::Open);
        assert_eq!(field.get(1, c).unwrap().state, State::Open);
        assert_eq!(field.get(2, c).unwrap().state, State::Closed);
        assert_eq!(field.get(3, c).unwrap().state, State::Closed);
    }
    assert_eq!(field.closed_empty_cells(), 5);
    assert_consistent(&field);
}

#[test]
fn reveal_of_a_numbered_cell_opens_only_it() {
    let mut field = field_with_mines(3, 3, &[(0, 0)], (2, 2));
    assert_eq!(field.get(1, 1).unwrap().neighbouring_bomb_count, 1);
    assert_eq!(field.uncover_at(1, 1), Some(false));
    for r in 0..3 {
        for c in 0..3 {
            let expected = if (r, c) == (1, 1) { State::Open } else { State::Closed };
            assert_eq!(field.get(r, c).unwrap().state, expected);
        }
    }
    assert_eq!(field.closed_empty_cells(), 7);
}

#[test]
fn flood_goes_round_flags_and_leaves_them() {
    let mut field = field_with_mines(1, 6, &[(0, 5)], (0, 0));
    // the flag at (0, 2) cuts the row in two
    field.toggle_flag_at(0, 2);
    assert_eq!(field.uncover_at(0, 0), Some(false));
    let expected = [
        State::Open,
        State::Open,
        State::Flagged,
        State::Closed,
        State::Closed,
        State::Closed,
    ];
    assert_eq!(states(&field), expected.to_vec());
    assert_eq!(field.closed_empty_cells(), 3);
    assert_eq!(field.flag_count(), 1);
    assert_consistent(&field);
}

#[test]
fn flood_spreads_diagonally() {
    // mines leave only a diagonal passage between the two empty corners
    let mut field = field_with_mines(4, 4, &[(0, 3), (3, 0)], (0, 0));
    assert_eq!(field.uncover_at(0, 0), Some(false));
    assert_eq!(field.get(3, 3).unwrap().state, State::Open);
    assert_eq!(field.closed_empty_cells(), 0);
}

#[test]
fn reveal_twice_is_reveal_once() {
    let mut field = field_with_mines(6, 6, &[(5, 5), (0, 5), (3, 3)], (0, 0));
    assert_eq!(field.uncover_at(0, 0), Some(false));
    let once = states(&field);
    let left = field.closed_empty_cells();
    assert_eq!(field.uncover_at(0, 0), Some(false));
    assert_eq!(states(&field), once);
    assert_eq!(field.closed_empty_cells(), left);
    assert_consistent(&field);
}

#[test]
fn tallies_hold_after_a_sequence_of_moves() {
    let mut field = field_with_mines(6, 7, &[(0, 6), (3, 3), (5, 0), (5, 6), (2, 5)], (0, 0));
    assert_consistent(&field);
    let moves: [(bool, usize, usize); 12] = [
        (true, 3, 3),
        (false, 0, 0),
        (true, 4, 4),
        (true, 5, 0),
        (false, 4, 4),
        (true, 4, 4),
        (false, 4, 4),
        (false, 5, 6),
        (true, 0, 0),
        (false, 3, 3),
        (true, 3, 3),
        (false, 1, 6),
    ];
    for (flag, r, c) in moves {
        if flag {
            assert_eq!(field.toggle_flag_at(r, c), Some(()));
        } else {
            assert!(field.uncover_at(r, c).is_some());
        }
        assert_consistent(&field);
    }
}

#[test]
fn flags_are_capped_at_the_mine_count() {
    let mut field = field_with_mines(3, 3, &[(0, 0), (0, 2)], (2, 1));
    assert_eq!(field.mine_count(), 2);
    assert_eq!(field.toggle_flag_at(0, 0), Some(()));
    assert_eq!(field.toggle_flag_at(1, 1), Some(()));
    assert_eq!(field.flag_count(), 2);
    assert_eq!(field.toggle_flag_at(2, 2), Some(()));
    assert_eq!(field.flag_count(), 2);
    assert_eq!(field.get(2, 2).unwrap().state, State::Closed);
    // a flag taken back frees the budget
    assert_eq!(field.toggle_flag_at(1, 1), Some(()));
    assert_eq!(field.flag_count(), 1);
    assert_eq!(field.get(1, 1).unwrap().state, State::Closed);
    assert_eq!(field.toggle_flag_at(2, 2), Some(()));
    assert_eq!(field.get(2, 2).unwrap().state, State::Flagged);
    assert_eq!(field.flag_count(), 2);
}

#[test]
fn no_flag_on_a_field_without_mines() {
    let mut field = Field::new(2, 2);
    assert_eq!(field.toggle_flag_at(0, 0), Some(()));
    assert_eq!(field.flag_count(), 0);
    assert_eq!(field.get(0, 0).unwrap().state, State::Closed);
}

#[test]
fn no_flag_on_an_open_cell() {
    let mut field = field_with_mines(3, 3, &[(0, 0)], (2, 2));
    field.uncover_at(1, 1);
    assert_eq!(field.toggle_flag_at(1, 1), Some(()));
    assert_eq!(field.get(1, 1).unwrap().state, State::Open);
    assert_eq!(field.flag_count(), 0);
}

#[test]
fn flagging_keeps_the_tally_of_cells_left_to_open() {
    let mut field = field_with_mines(3, 3, &[(0, 0)], (2, 2));
    field.toggle_flag_at(2, 2);
    assert_eq!(field.get(2, 2).unwrap().state, State::Flagged);
    assert_eq!(field.closed_empty_cells(), 8);
}

#[test]
fn neighbour_predicate_counters() {
    let mut field = field_with_mines(3, 3, &[(0, 0), (0, 1), (0, 2)], (2, 1));
    assert_eq!(field.get_flagged_nbors_amt(1, 1), Some(0));
    assert_eq!(field.get_non_open_nbors_amt(1, 1), Some(8));
    assert_eq!(field.get_non_open_nbors_amt(0, 0), Some(3));
    assert_eq!(field.get_non_open_nbors_amt(1, 0), Some(5));
    field.toggle_flag_at(0, 0);
    field.toggle_flag_at(0, 2);
    assert_eq!(field.get_flagged_nbors_amt(1, 1), Some(2));
    assert_eq!(field.get_flagged_nbors_amt(0, 1), Some(2));
    assert_eq!(field.get_flagged_nbors_amt(0, 0), Some(0));
    assert_eq!(field.get_flagged_nbors_amt(2, 2), Some(0));
    field.uncover_at(2, 1);
    // the flood opened the two lower rows
    assert_eq!(field.get_non_open_nbors_amt(1, 1), Some(3));
    assert_eq!(field.get_non_open_nbors_amt(2, 1), Some(0));
    assert_eq!(field.get_non_open_nbors_amt(0, 1), Some(2));
    assert_eq!(field.get_flagged_nbors_amt(1, 1), Some(2));
}

#[test]
fn uncover_around_opens_the_closed_neighbours() {
    let mut field = field_with_mines(3, 3, &[(0, 0)], (2, 2));
    field.uncover_at(1, 1);
    field.toggle_flag_at(0, 0);
    assert_eq!(field.uncover_around_cell_at(1, 1), Some(false));
    for r in 0..3 {
        for c in 0..3 {
            let expected = if (r, c) == (0, 0) { State::Flagged } else { State::Open };
            assert_eq!(field.get(r, c).unwrap().state, expected);
        }
    }
    assert_eq!(field.closed_empty_cells(), 0);
    assert_consistent(&field);
}

#[test]
fn uncover_around_stops_at_the_first_mine() {
    // (1, 0) holds a mine; the cells before it in the block are revealed
    // (the flood from (0, 2) takes (1, 2) along), those after it are not
    let mut field = field_with_mines(3, 3, &[(1, 0), (2, 2)], (0, 2));
    field.uncover_at(1, 1);
    assert_eq!(field.uncover_around_cell_at(1, 1), Some(true));
    let expected = [
        State::Open,
        State::Open,
        State::Open,
        State::Closed,
        State::Open,
        State::Open,
        State::Closed,
        State::Closed,
        State::Closed,
    ];
    assert_eq!(states(&field), expected.to_vec());
    assert_eq!(field.closed_empty_cells(), 2);
    assert_consistent(&field);
}

#[test]
fn unflag_all_closed_around_flags_the_closed_neighbours() {
    let mut field = field_with_mines(3, 3, &[(0, 0), (0, 1), (0, 2)], (2, 1));
    field.uncover_at(2, 1);
    assert!(field.unflag_all_closed_around(1, 1));
    assert_eq!(field.flag_count(), 3);
    for c in 0..3 {
        assert_eq!(field.get(0, c).unwrap().state, State::Flagged);
        assert_eq!(field.get(1, c).unwrap().state, State::Open);
        assert_eq!(field.get(2, c).unwrap().state, State::Open);
    }
    // flagged cells are not closed: a second run leaves them
    assert!(field.unflag_all_closed_around(1, 1));
    assert_eq!(field.flag_count(), 3);
    assert_consistent(&field);
}

#[test]
fn unflag_all_closed_around_respects_the_budget() {
    let mut field = field_with_mines(3, 3, &[(0, 0)], (2, 2));
    assert!(field.unflag_all_closed_around(1, 1));
    assert_eq!(field.flag_count(), 1);
    assert_eq!(field.get(0, 0).unwrap().state, State::Flagged);
    assert_eq!(field.get(0, 1).unwrap().state, State::Closed);
    assert_eq!(field.get(2, 2).unwrap().state, State::Closed);
}

#[test]
fn moves_at_the_corners_and_edges() {
    let mut field = field_with_mines(2, 2, &[(1, 1)], (5, 5));
    assert_eq!(field.get(0, 0).unwrap().neighbouring_bomb_count, 1);
    assert_eq!(field.get(0, 1).unwrap().neighbouring_bomb_count, 1);
    assert_eq!(field.get(1, 0).unwrap().neighbouring_bomb_count, 1);
    assert_eq!(field.get(1, 1).unwrap().neighbouring_bomb_count, 0);
    assert_eq!(field.get_non_open_nbors_amt(0, 0), Some(3));
    assert_eq!(field.get_non_open_nbors_amt(1, 1), Some(3));
    assert!(field.unflag_all_closed_around(1, 1));
    assert_eq!(field.flag_count(), 1);
    assert_eq!(field.get(0, 0).unwrap().state, State::Flagged);
    assert_eq!(field.uncover_around_cell_at(0, 0), Some(true));
    assert_eq!(field.get(0, 1).unwrap().state, State::Open);
    assert_eq!(field.get(1, 0).unwrap().state, State::Open);
    assert_eq!(field.get(1, 1).unwrap().state, State::Closed);
}

#[test]
fn flood_over_the_largest_preset() {
    let mut field = field_with_mines(40, 60, &[(39, 59)], (0, 0));
    assert_eq!(field.uncover_at(20, 30), Some(false));
    assert_eq!(field.closed_empty_cells(), 0);
    assert_eq!(field.get(39, 59).unwrap().state, State::Closed);
    assert_eq!(field.get(0, 0).unwrap().state, State::Open);
    assert_consistent(&field);
}

#[test]
fn moves_change_neither_contents_nor_counts() {
    let mut field = field_with_mines(5, 5, &[(0, 4), (2, 2), (4, 0)], (0, 0));
    let before: Vec<(Content, usize)> = (0..25)
        .map(|i| {
            let cell = field.get(i / 5, i % 5).unwrap();
            (cell.content, cell.neighbouring_bomb_count)
        })
        .collect();
    field.toggle_flag_at(2, 2);
    field.uncover_at(0, 0);
    field.uncover_at(4, 4);
    field.toggle_flag_at(2, 2);
    field.uncover_around_cell_at(1, 1);
    field.unflag_all_closed_around(3, 3);
    let after: Vec<(Content, usize)> = (0..25)
        .map(|i| {
            let cell = field.get(i / 5, i % 5).unwrap();
            (cell.content, cell.neighbouring_bomb_count)
        })
        .collect();
    assert_eq!(before, after);
    assert_eq!(field.mine_count(), 3);
}

#[test]
fn toggling_twice_gives_the_field_back() {
    let mut field = field_with_mines(3, 3, &[(0, 0)], (2, 2));
    let before = states(&field);
    field.toggle_flag_at(1, 1);
    field.toggle_flag_at(1, 1);
    assert_eq!(states(&field), before);
    assert_eq!(field.flag_count(), 0);
}
