use mnswpr::cell::State;
use mnswpr::colors::mnswpr_palette;
use mnswpr::mnswpr::{Command, Cursor, Direction, Mnswpr, Progress};

const WHITE_FG: &str = "\x1b[38;2;255;255;255m";
const ROW_END: &str = "\x1b[49m\x1b[39m\r\n";

/// A game of the given sides with mines at the given positions and the
/// cursor, around which the safe zone lies, at `at`.
fn game_with_mines(rows: usize, cols: usize, mines: &[(usize, usize)], at: (usize, usize)) -> Mnswpr {
    let mut game = Mnswpr::new(rows, cols, 50, mnswpr_palette());
    let mut draws = vec![100u8; rows * cols];
    for &(r, c) in mines {
        draws[r * cols + c] = 1;
    }
    game.field.lay_mines(&draws, 50, at.0, at.1);
    game.cursor = Cursor { row: at.0, col: at.1 };
    game
}

#[test]
fn new_game() {
    let game = Mnswpr::new(4, 6, 20, mnswpr_palette());
    assert_eq!(game.rows, 4);
    assert_eq!(game.cols, 6);
    assert_eq!(game.cursor, Cursor { row: 0, col: 0 });
    assert_eq!(game.mine_percentage, 20);
    assert_eq!(game.field.rows(), 4);
    assert_eq!(game.field.cols(), 6);
    assert_eq!(game.field.closed_empty_cells(), 24);
}

#[test]
fn keys_and_commands() {
    for c in ['q', 'Q'] {
        assert_eq!(Command::from_char(c), Command::Quit);
    }
    for c in ['w', 'W', 'k', 'K'] {
        assert_eq!(Command::from_char(c), Command::Move(Direction::Up));
    }
    for c in ['a', 'A', 'h', 'H'] {
        assert_eq!(Command::from_char(c), Command::Move(Direction::Left));
    }
    for c in ['s', 'S', 'j', 'J'] {
        assert_eq!(Command::from_char(c), Command::Move(Direction::Down));
    }
    for c in ['d', 'D', 'l', 'L'] {
        assert_eq!(Command::from_char(c), Command::Move(Direction::Right));
    }
    for c in [' ', '\n'] {
        assert_eq!(Command::from_char(c), Command::Uncover);
    }
    for c in ['f', 'F'] {
        assert_eq!(Command::from_char(c), Command::Flag);
    }
    for c in ['x', 'y', 'n', '\t', '1', 'é'] {
        assert_eq!(Command::from_char(c), Command::Nothing);
    }
}

#[test]
fn cursor_stops_at_the_edges() {
    let mut game = Mnswpr::new(2, 3, 20, mnswpr_palette());
    game.move_cursor(Direction::Up);
    assert_eq!(game.cursor, Cursor { row: 0, col: 0 });
    game.move_cursor(Direction::Left);
    assert_eq!(game.cursor, Cursor { row: 0, col: 0 });
    game.move_cursor(Direction::Right);
    game.move_cursor(Direction::Right);
    assert_eq!(game.cursor, Cursor { row: 0, col: 2 });
    game.move_cursor(Direction::Right);
    assert_eq!(game.cursor, Cursor { row: 0, col: 2 });
    game.move_cursor(Direction::Down);
    assert_eq!(game.cursor, Cursor { row: 1, col: 2 });
    game.move_cursor(Direction::Down);
    assert_eq!(game.cursor, Cursor { row: 1, col: 2 });
    game.move_cursor(Direction::Left);
    game.move_cursor(Direction::Up);
    assert_eq!(game.cursor, Cursor { row: 0, col: 1 });
}

#[test]
fn first_reveal_lays_the_mines_and_is_safe() {
    for _ in 0..20 {
        let mut game = Mnswpr::new(8, 8, 99, mnswpr_palette());
        let mut first_move = true;
        for _ in 0..3 {
            game.play_turn(Command::Move(Direction::Down), &mut first_move, false, false);
            game.play_turn(Command::Move(Direction::Right), &mut first_move, false, false);
        }
        assert!(first_move);
        // no flag before the first reveal
        assert_eq!(game.play_turn(Command::Flag, &mut first_move, false, true), Progress::Ongoing);
        assert_eq!(game.field.flag_count(), 0);
        assert!(first_move);
        let res = game.play_turn(Command::Uncover, &mut first_move, false, false);
        assert!(!first_move);
        assert_ne!(res, Progress::Lost);
        assert_eq!(game.cursor, Cursor { row: 3, col: 3 });
        for r in 2..=4 {
            for c in 2..=4 {
                let cell = game.field.get(r, c).unwrap();
                assert!(cell.is_empty());
                assert_eq!(cell.state, State::Open);
            }
        }
        assert_eq!(game.field.get(3, 3).unwrap().neighbouring_bomb_count, 0);
    }
}

#[test]
fn quit_leaves_the_game_as_it_is() {
    let mut game = game_with_mines(3, 3, &[(0, 0)], (2, 2));
    let mut first_move = false;
    assert_eq!(game.play_turn(Command::Quit, &mut first_move, true, true), Progress::Quit);
    assert_eq!(game.cursor, Cursor { row: 2, col: 2 });
    assert_eq!(game.field.closed_empty_cells(), 8);
    assert!(!first_move);
}

#[test]
fn reveal_on_a_mine_loses() {
    let mut game = game_with_mines(3, 3, &[(0, 0)], (2, 2));
    let mut first_move = false;
    game.cursor = Cursor { row: 0, col: 0 };
    assert_eq!(game.play_turn(Command::Uncover, &mut first_move, false, false), Progress::Lost);
    assert_eq!(game.field.get(0, 0).unwrap().state, State::Closed);
}

#[test]
fn last_reveal_wins() {
    let mut game = game_with_mines(3, 3, &[(0, 0)], (2, 2));
    let mut first_move = false;
    // the flood from (2, 2) opens every empty cell
    assert_eq!(game.play_turn(Command::Uncover, &mut first_move, false, false), Progress::Won);
    assert_eq!(game.field.closed_empty_cells(), 0);
    // a move on a won board reports the win again
    assert_eq!(
        game.play_turn(Command::Move(Direction::Up), &mut first_move, false, false),
        Progress::Won
    );
}

#[test]
fn assisted_opening_reveals_around_a_satisfied_cell() {
    let mut game = game_with_mines(3, 3, &[(0, 0)], (1, 1));
    // the safe zone covers the whole field: no mine
    assert_eq!(game.field.mine_count(), 0);
    let mut game = game_with_mines(4, 4, &[(0, 0)], (3, 3));
    let mut first_move = false;
    game.cursor = Cursor { row: 1, col: 1 };
    assert_eq!(game.play_turn(Command::Uncover, &mut first_move, true, false), Progress::Ongoing);
    assert_eq!(game.field.closed_empty_cells(), 14);
    // not satisfied: one mine around, no flag: the reveal does nothing more
    assert_eq!(game.play_turn(Command::Uncover, &mut first_move, true, false), Progress::Ongoing);
    assert_eq!(game.field.closed_empty_cells(), 14);
    game.cursor = Cursor { row: 0, col: 0 };
    assert_eq!(game.play_turn(Command::Flag, &mut first_move, false, false), Progress::Ongoing);
    assert_eq!(game.field.flag_count(), 1);
    game.cursor = Cursor { row: 1, col: 1 };
    // without assistance nothing happens on the open cell
    assert_eq!(game.play_turn(Command::Uncover, &mut first_move, false, false), Progress::Ongoing);
    assert_eq!(game.field.closed_empty_cells(), 14);
    assert_eq!(game.play_turn(Command::Uncover, &mut first_move, true, false), Progress::Won);
    assert_eq!(game.field.closed_empty_cells(), 0);
    assert_eq!(game.field.get(0, 0).unwrap().state, State::Flagged);
}

#[test]
fn assisted_opening_with_a_wrong_flag_loses() {
    let mut game = game_with_mines(4, 4, &[(0, 0)], (3, 3));
    let mut first_move = false;
    game.cursor = Cursor { row: 1, col: 1 };
    game.play_turn(Command::Uncover, &mut first_move, true, false);
    game.cursor = Cursor { row: 0, col: 1 };
    game.play_turn(Command::Flag, &mut first_move, false, false);
    assert_eq!(game.field.get(0, 1).unwrap().state, State::Flagged);
    game.cursor = Cursor { row: 1, col: 1 };
    assert_eq!(game.play_turn(Command::Uncover, &mut first_move, true, false), Progress::Lost);
}

#[test]
fn assisted_flagging_flags_around_a_satisfied_cell() {
    let mut game = game_with_mines(3, 3, &[(0, 0), (0, 1), (0, 2)], (2, 1));
    let mut first_move = false;
    assert_eq!(game.play_turn(Command::Uncover, &mut first_move, false, false), Progress::Won);
    let mut game = game_with_mines(3, 4, &[(0, 0), (0, 1), (0, 2)], (2, 1));
    assert_eq!(game.play_turn(Command::Uncover, &mut first_move, false, false), Progress::Ongoing);
    // (1, 1) is open with three mines and three closed cells around it
    game.cursor = Cursor { row: 1, col: 1 };
    assert_eq!(game.field.get(1, 1).unwrap().state, State::Open);
    assert_eq!(game.play_turn(Command::Flag, &mut first_move, false, false), Progress::Ongoing);
    assert_eq!(game.field.flag_count(), 0);
    assert_eq!(game.play_turn(Command::Flag, &mut first_move, false, true), Progress::Ongoing);
    assert_eq!(game.field.flag_count(), 3);
    for c in 0..3 {
        assert_eq!(game.field.get(0, c).unwrap().state, State::Flagged);
    }
    assert_eq!(game.field.get(1, 1).unwrap().state, State::Open);
}

#[test]
fn flag_command_toggles_under_the_cursor() {
    let mut game = game_with_mines(3, 3, &[(0, 0)], (2, 2));
    let mut first_move = false;
    game.cursor = Cursor { row: 0, col: 1 };
    game.play_turn(Command::Flag, &mut first_move, false, true);
    assert_eq!(game.field.get(0, 1).unwrap().state, State::Flagged);
    game.play_turn(Command::Flag, &mut first_move, false, true);
    assert_eq!(game.field.get(0, 1).unwrap().state, State::Closed);
    assert_eq!(game.play_turn(Command::Nothing, &mut first_move, true, true), Progress::Ongoing);
}

#[test]
fn status_line() {
    let mut game = game_with_mines(4, 4, &[(0, 0), (0, 1), (0, 3)], (3, 3));
    assert_eq!(game.render_status(), "Mines:3    Flags:0\r\n");
    game.field.toggle_flag_at(0, 0);
    game.field.toggle_flag_at(1, 1);
    assert_eq!(game.render_status(), "Mines:3    Flags:2\r\n");
    let game = Mnswpr::new(1, 1, 0, mnswpr_palette());
    assert_eq!(game.render_status(), "Mines:0    Flags:0\r\n");
}

#[test]
fn field_as_text() {
    let mut game = game_with_mines(2, 2, &[(0, 0)], (5, 5));
    game.cursor = Cursor { row: 0, col: 1 };
    game.field.uncover_at(1, 1);
    game.field.toggle_flag_at(1, 0);
    let closed = format!("\x1b[48;2;30;30;30m{WHITE_FG} {WHITE_FG}.{WHITE_FG} ");
    let closed_cursor = format!("\x1b[48;2;30;30;30m{WHITE_FG}[{WHITE_FG}.{WHITE_FG}]");
    let flag = format!("\x1b[48;2;40;100;40m{WHITE_FG} {WHITE_FG}F{WHITE_FG} ");
    let one = format!("\x1b[48;2;30;30;30m{WHITE_FG} \x1b[38;2;70;100;255m1{WHITE_FG} ");
    assert_eq!(
        game.render_field(),
        format!("{closed}{closed_cursor}{ROW_END}{flag}{one}{ROW_END}")
    );
    let mine = format!("\x1b[48;2;180;0;0m{WHITE_FG} {WHITE_FG}*{WHITE_FG} ");
    let one_cursor = format!("\x1b[48;2;30;30;30m{WHITE_FG}[\x1b[38;2;70;100;255m1{WHITE_FG}]");
    let wrong = format!("\x1b[48;2;255;0;0m{WHITE_FG} {WHITE_FG}1{WHITE_FG} ");
    assert_eq!(
        game.render_field_game_lost(),
        format!("{mine}{one_cursor}{ROW_END}{wrong}{one}{ROW_END}")
    );
}

#[test]
fn new_game_keeps_the_sides_as_given() {
    let game = Mnswpr::new(0, 3, 20, mnswpr_palette());
    assert_eq!((game.rows, game.cols), (0, 3));
    assert_eq!((game.field.rows(), game.field.cols()), (1, 3));
}
