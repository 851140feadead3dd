//! A game: the field, the cursor on it, and what each command of the
//! player does.

use vstd::prelude::*;
use crate::board::{lemma_count_at_most_eight, lemma_grid, Board};
use crate::cell::{Cell, State};
use crate::colors::{bg_reset_sequence, bg_reset_str, fg_reset_sequence, fg_reset_str, Palette};
use crate::field::Field;
use crate::text::{append, append_decimal, decimal};

verus! {

/// The position of the player on the field.
#[derive(Copy, Clone, Debug, PartialEq, Eq, Structural)]
pub struct Cursor {
    pub row: usize,
    pub col: usize,
}

#[derive(Copy, Clone, Debug, PartialEq, Eq, Structural)]
pub enum Direction {
    Up,
    Left,
    Right,
    Down,
}

/// What a key asks for.
#[derive(Copy, Clone, Debug, PartialEq, Eq, Structural)]
pub enum Command {
    Quit,
    Move(Direction),
    Uncover,
    Flag,
    Nothing,
}

/// How the game stands after a command.
#[derive(Copy, Clone, Debug, PartialEq, Eq, Structural)]
pub enum Progress {
    /// The player left.
    Quit,
    /// A mine went off.
    Lost,
    /// Every empty cell is open.
    Won,
    Ongoing,
}

impl Cursor {
    /// The cursor one step on in the given direction, or where it is at
    /// the edge of a field of the given sides.
    pub open spec fn moved(self, d: Direction, rows: usize, cols: usize) -> Cursor {
        match d {
            Direction::Up => if self.row > 0 {
                Cursor { row: (self.row - 1) as usize, col: self.col }
            } else {
                self
            },
            Direction::Left => if self.col > 0 {
                Cursor { row: self.row, col: (self.col - 1) as usize }
            } else {
                self
            },
            Direction::Right => if self.col < cols - 1 {
                Cursor { row: self.row, col: (self.col + 1) as usize }
            } else {
                self
            },
            Direction::Down => if self.row < rows - 1 {
                Cursor { row: (self.row + 1) as usize, col: self.col }
            } else {
                self
            },
        }
    }
}

impl Command {
    /// The command that a character key stands for.
    pub open spec fn of_char(c: char) -> Command {
        if c == 'q' || c == 'Q' {
            Command::Quit
        } else if c == 'w' || c == 'W' || c == 'k' || c == 'K' {
            Command::Move(Direction::Up)
        } else if c == 'a' || c == 'A' || c == 'h' || c == 'H' {
            Command::Move(Direction::Left)
        } else if c == 's' || c == 'S' || c == 'j' || c == 'J' {
            Command::Move(Direction::Down)
        } else if c == 'd' || c == 'D' || c == 'l' || c == 'L' {
            Command::Move(Direction::Right)
        } else if c == ' ' || c == '\n' {
            Command::Uncover
        } else if c == 'f' || c == 'F' {
            Command::Flag
        } else {
            Command::Nothing
        }
    }

    /// The command that a character key stands for.
    pub fn from_char(c: char) -> (cmd: Command)
        ensures
            cmd == Command::of_char(c),
    {
        match c {
            'q' | 'Q' => Command::Quit,
            'w' | 'W' | 'k' | 'K' => Command::Move(Direction::Up),
            'a' | 'A' | 'h' | 'H' => Command::Move(Direction::Left),
            's' | 'S' | 'j' | 'J' => Command::Move(Direction::Down),
            'd' | 'D' | 'l' | 'L' => Command::Move(Direction::Right),
            ' ' | '\n' => Command::Uncover,
            'f' | 'F' => Command::Flag,
            _ => Command::Nothing,
        }
    }
}

/// How a game on the board stands while no mine went off.
pub open spec fn standing(b: Board) -> Progress {
    if b.won() {
        Progress::Won
    } else {
        Progress::Ongoing
    }
}

/// One cell of the field as drawn, the cursor around it where it is there.
pub open spec fn cell_text(b: Board, cursor: Cursor, palette: Palette, lost: bool, r: int, c: int) -> Seq<
    char,
> {
    let with_cursor = cursor.row == r && cursor.col == c;
    if lost {
        b.at(r, c).drawn_lost(palette, with_cursor)
    } else {
        b.at(r, c).drawn(palette, with_cursor)
    }
}

/// The first `upto` cells of row `r` as drawn.
pub open spec fn row_text(
    b: Board,
    cursor: Cursor,
    palette: Palette,
    lost: bool,
    r: int,
    upto: nat,
) -> Seq<char>
    decreases upto,
{
    if upto == 0 {
        Seq::empty()
    } else {
        row_text(b, cursor, palette, lost, r, (upto - 1) as nat) + cell_text(
            b,
            cursor,
            palette,
            lost,
            r,
            upto - 1,
        )
    }
}

/// What ends a row: both colours put back, then a new line.
pub open spec fn row_end() -> Seq<char> {
    bg_reset_sequence() + fg_reset_sequence() + seq!['\r', '\n']
}

/// The first `upto` rows of the field as drawn, each with its end.
pub open spec fn field_text(b: Board, cursor: Cursor, palette: Palette, lost: bool, upto: nat) -> Seq<
    char,
>
    decreases upto,
{
    if upto == 0 {
        Seq::empty()
    } else {
        field_text(b, cursor, palette, lost, (upto - 1) as nat) + row_text(
            b,
            cursor,
            palette,
            lost,
            upto - 1,
            b.cols,
        ) + row_end()
    }
}

/// The line above the field: the tallies of mines and flags.
pub open spec fn status_text(b: Board) -> Seq<char> {
    seq!['M', 'i', 'n', 'e', 's', ':'] + decimal(b.mine_count) + seq![
        ' ',
        ' ',
        ' ',
        ' ',
        'F',
        'l',
        'a',
        'g',
        's',
        ':',
    ] + decimal(b.flag_count) + seq!['\r', '\n']
}

pub struct Mnswpr {
    pub field: Field,
    pub cursor: Cursor,
    pub rows: usize,
    pub cols: usize,
    pub mine_percentage: u8,
    pub palette: Palette,
}

impl Mnswpr {
    /// The field is consistent, the sides are those of the field, and the
    /// cursor is on it.
    pub open spec fn wf(&self) -> bool {
        &&& self.field@.wf()
        &&& self.rows == self.field@.rows
        &&& self.cols == self.field@.cols
        &&& self.cursor.row < self.rows
        &&& self.cursor.col < self.cols
    }

    /// A game on an empty field of the given sides, the cursor in its
    /// first cell. The field takes a side of zero as one; the game keeps
    /// the sides as given, and is well formed where neither is zero.
    pub fn new(rows: usize, cols: usize, mine_percentage: u8, palette: Palette) -> (game: Self)
        requires
            (if rows == 0 { 1 } else { rows as int }) * (if cols == 0 { 1 } else { cols as int })
                <= usize::MAX,
        ensures
            rows >= 1 && cols >= 1 ==> game.wf(),
            game.field@ == Board::blank(
                if rows == 0 { 1 } else { rows as nat },
                if cols == 0 { 1 } else { cols as nat },
            ),
            game.cursor == (Cursor { row: 0, col: 0 }),
            game.rows == rows,
            game.cols == cols,
            game.mine_percentage == mine_percentage,
            game.palette == palette,
    {
        Self {
            cursor: Cursor { row: 0, col: 0 },
            field: Field::new(rows, cols),
            rows,
            cols,
            mine_percentage,
            palette,
        }
    }

    /// Lays the mines at random, with the safe zone around the cursor.
    pub fn randomize_field(&mut self)
        ensures
            final(self).field@.rows == old(self).field@.rows,
            final(self).field@.cols == old(self).field@.cols,
            final(self).field@.flag_count == old(self).field@.flag_count,
            exists|draws: Seq<u8>|
                (forall|i: int| 0 <= i < draws.len() ==> 1 <= #[trigger] draws[i] <= 100)
                    && #[trigger] final(self).field@.laid_from(
                    draws,
                    old(self).mine_percentage,
                    old(self).cursor.row as int,
                    old(self).cursor.col as int,
                ),
            final(self).field@.fresh_and_safe(
                old(self).cursor.row as int,
                old(self).cursor.col as int,
            ),
            final(self).field@.settled(),
            old(self).field@.flag_count == 0 ==> final(self).field@.wf(),
            final(self).cursor == old(self).cursor,
            final(self).rows == old(self).rows,
            final(self).cols == old(self).cols,
            final(self).mine_percentage == old(self).mine_percentage,
            final(self).palette == old(self).palette,
    {
        self.field.randomize(self.mine_percentage, self.cursor.row, self.cursor.col);
    }

    /// Moves the cursor one step, unless it stands at that edge.
    pub fn move_cursor(&mut self, d: Direction)
        requires
            old(self).rows >= 1,
            old(self).cols >= 1,
        ensures
            final(self).cursor == old(self).cursor.moved(d, old(self).rows, old(self).cols),
            final(self).field == old(self).field,
            final(self).rows == old(self).rows,
            final(self).cols == old(self).cols,
            final(self).mine_percentage == old(self).mine_percentage,
            final(self).palette == old(self).palette,
            old(self).wf() ==> final(self).wf(),
    {
        match d {
            Direction::Up => {
                if self.cursor.row > 0 {
                    self.cursor.row -= 1;
                }
            },
            Direction::Left => {
                if self.cursor.col > 0 {
                    self.cursor.col -= 1;
                }
            },
            Direction::Right => {
                if self.cursor.col < self.cols - 1 {
                    self.cursor.col += 1;
                }
            },
            Direction::Down => {
                if self.cursor.row < self.rows - 1 {
                    self.cursor.row += 1;
                }
            },
        }
    }

    /// The player's reveal at the cursor: with assistance, on a cell
    /// satisfied for opening, every closed cell around it is revealed;
    /// else the cell itself. Says whether a mine went off.
    pub fn uncover_under_cursor(&mut self, assisted_opening: bool) -> (exploded: bool)
        requires
            old(self).wf(),
        ensures
            (final(self).field@, exploded) == old(self).field@.player_uncovered(
                old(self).cursor.row as int,
                old(self).cursor.col as int,
                assisted_opening,
            ),
            final(self).wf(),
            final(self).cursor == old(self).cursor,
            final(self).rows == old(self).rows,
            final(self).cols == old(self).cols,
            final(self).mine_percentage == old(self).mine_percentage,
            final(self).palette == old(self).palette,
    {
        let crow = self.cursor.row;
        let ccol = self.cursor.col;
        let cell: Cell = *self.field.get_unchecked(crow, ccol);
        let flagged_around = match self.field.get_flagged_nbors_amt(crow, ccol) {
            Some(n) => n,
            None => 0,
        };
        let res = if assisted_opening && cell.is_open() && flagged_around
            == cell.neighbouring_bomb_count {
            self.field.uncover_around_cell_at(crow, ccol)
        } else {
            self.field.uncover_at(crow, ccol)
        };
        match res {
            Some(exploded) => exploded,
            None => false,
        }
    }

    /// The player's flag at the cursor: with assistance, on a cell
    /// satisfied for flagging, the flag of every closed cell around it is
    /// toggled first; then that of the cell itself.
    pub fn flag_under_cursor(&mut self, assisted_flagging: bool)
        requires
            old(self).wf(),
        ensures
            final(self).field@ == old(self).field@.player_flagged(
                old(self).cursor.row as int,
                old(self).cursor.col as int,
                assisted_flagging,
            ),
            final(self).wf(),
            final(self).cursor == old(self).cursor,
            final(self).rows == old(self).rows,
            final(self).cols == old(self).cols,
            final(self).mine_percentage == old(self).mine_percentage,
            final(self).palette == old(self).palette,
    {
        let crow = self.cursor.row;
        let ccol = self.cursor.col;
        if assisted_flagging {
            let cell: Cell = *self.field.get_unchecked(crow, ccol);
            let non_open_nbors = match self.field.get_non_open_nbors_amt(crow, ccol) {
                Some(n) => n,
                None => 0,
            };
            if cell.is_open() && cell.neighbouring_bomb_count == non_open_nbors {
                self.field.unflag_all_closed_around(crow, ccol);
            }
        }
        self.field.toggle_flag_at(crow, ccol);
    }

    /// Carries out one command of the player. `first_move` says that no
    /// cell was revealed yet: the first reveal lays the mines, around the
    /// cursor, and no flag is set before it.
    pub fn play_turn(
        &mut self,
        cmd: Command,
        first_move: &mut bool,
        assisted_opening: bool,
        assisted_flagging: bool,
    ) -> (res: Progress)
        requires
            old(self).wf(),
            *old(first_move) ==> old(self).field@.flag_count == 0,
        ensures
            final(self).wf(),
            final(self).rows == old(self).rows,
            final(self).cols == old(self).cols,
            final(self).mine_percentage == old(self).mine_percentage,
            final(self).palette == old(self).palette,
            *final(first_move) ==> final(self).field@.flag_count == 0,
            *final(first_move) == (*old(first_move) && cmd != Command::Uncover),
            res == Progress::Quit <==> cmd == Command::Quit,
            res == Progress::Lost <==> cmd == Command::Uncover && !*old(first_move) && old(
                self,
            ).field@.player_uncovered(
                old(self).cursor.row as int,
                old(self).cursor.col as int,
                assisted_opening,
            ).1,
            res != Progress::Quit && res != Progress::Lost ==> res == standing(final(self).field@),
            match cmd {
                Command::Quit => final(self).field == old(self).field && final(self).cursor
                    == old(self).cursor,
                Command::Move(d) => final(self).field == old(self).field && final(self).cursor
                    == old(self).cursor.moved(d, old(self).rows, old(self).cols),
                Command::Uncover => final(self).cursor == old(self).cursor && if *old(first_move) {
                    exists|laid: Board|
                        #![trigger laid.uncovered(
                            old(self).cursor.row as int,
                            old(self).cursor.col as int,
                        )]
                        laid.wf() && laid.rows == old(self).field@.rows && laid.cols == old(
                            self,
                        ).field@.cols && laid.fresh_and_safe(
                            old(self).cursor.row as int,
                            old(self).cursor.col as int,
                        ) && final(self).field@ == laid.uncovered(
                            old(self).cursor.row as int,
                            old(self).cursor.col as int,
                        )
                } else {
                    let outcome = old(self).field@.player_uncovered(
                        old(self).cursor.row as int,
                        old(self).cursor.col as int,
                        assisted_opening,
                    );
                    final(self).field@ == outcome.0
                },
                Command::Flag => final(self).cursor == old(self).cursor && if *old(first_move) {
                    final(self).field == old(self).field
                } else {
                    final(self).field@ == old(self).field@.player_flagged(
                        old(self).cursor.row as int,
                        old(self).cursor.col as int,
                        assisted_flagging,
                    )
                },
                Command::Nothing => final(self).field == old(self).field && final(self).cursor
                    == old(self).cursor,
            },
    {
        match cmd {
            Command::Quit => {
                return Progress::Quit;
            },
            Command::Move(d) => {
                self.move_cursor(d);
            },
            Command::Uncover => {
                if *first_move {
                    self.randomize_field();
                    *first_move = false;
                    let ghost laid = self.field@;
                    proof {
                        lemma_grid(laid);
                        assert(laid.at(self.cursor.row as int, self.cursor.col as int).state
                            == State::Closed);
                    }
                    let exploded = self.uncover_under_cursor(assisted_opening);
                    assert(!exploded);
                    assert(self.field@ == laid.uncovered(
                        self.cursor.row as int,
                        self.cursor.col as int,
                    ));
                } else if self.uncover_under_cursor(assisted_opening) {
                    return Progress::Lost;
                }
            },
            Command::Flag => {
                if !*first_move {
                    self.flag_under_cursor(assisted_flagging);
                }
            },
            Command::Nothing => {},
        }
        if self.field.closed_empty_cells() == 0 {
            Progress::Won
        } else {
            Progress::Ongoing
        }
    }

    /// The field as text for the terminal, row by row, as it is drawn
    /// during play or, with `lost`, once the game is lost.
    fn render(&self, lost: bool) -> (s: String)
        requires
            self.wf(),
        ensures
            s@ == field_text(self.field@, self.cursor, self.palette, lost, self.rows as nat),
    {
        let mut out = String::new();
        let mut row: usize = 0;
        while row < self.rows
            invariant
                row <= self.rows,
                self.wf(),
                out@ == field_text(self.field@, self.cursor, self.palette, lost, row as nat),
            decreases self.rows - row,
        {
            let ghost before_row = out@;
            let mut col: usize = 0;
            while col < self.cols
                invariant
                    col <= self.cols,
                    row < self.rows,
                    self.wf(),
                    out@ == before_row + row_text(
                        self.field@,
                        self.cursor,
                        self.palette,
                        lost,
                        row as int,
                        col as nat,
                    ),
                decreases self.cols - col,
            {
                let cell = self.field.get_unchecked(row, col);
                proof {
                    lemma_count_at_most_eight(self.field@, row as int, col as int);
                }
                let with_cursor = self.cursor.row == row && self.cursor.col == col;
                let cell_repr = if lost {
                    cell.to_string_with_palette_lost(&self.palette, with_cursor)
                } else {
                    cell.to_string_with_palette(&self.palette, with_cursor)
                };
                let ghost before_cell = out@;
                append(&mut out, cell_repr.as_str());
                assert(out@ =~= before_row + row_text(
                    self.field@,
                    self.cursor,
                    self.palette,
                    lost,
                    row as int,
                    (col + 1) as nat,
                ));
                col += 1;
            }
            append(&mut out, bg_reset_str());
            append(&mut out, fg_reset_str());
            append(&mut out, "\r\n");
            proof {
                reveal_strlit("\r\n");
                assert("\r\n"@ =~= seq!['\r', '\n']);
                assert(out@ =~= field_text(
                    self.field@,
                    self.cursor,
                    self.palette,
                    lost,
                    (row + 1) as nat,
                ));
            }
            row += 1;
        }
        out
    }

    /// The field as text for the terminal, as it is drawn during play.
    pub fn render_field(&self) -> (s: String)
        requires
            self.wf(),
        ensures
            s@ == field_text(self.field@, self.cursor, self.palette, false, self.rows as nat),
    {
        self.render(false)
    }

    /// The field as text for the terminal once the game is lost: every
    /// cell shows what it holds, and right and wrong flags are told apart.
    pub fn render_field_game_lost(&self) -> (s: String)
        requires
            self.wf(),
        ensures
            s@ == field_text(self.field@, self.cursor, self.palette, true, self.rows as nat),
    {
        self.render(true)
    }

    /// The line above the field: the tallies of mines and flags.
    pub fn render_status(&self) -> (s: String)
        ensures
            s@ == status_text(self.field@),
    {
        let mut out = String::new();
        append(&mut out, "Mines:");
        append_decimal(&mut out, self.field.mine_count());
        append(&mut out, "    Flags:");
        append_decimal(&mut out, self.field.flag_count());
        append(&mut out, "\r\n");
        proof {
            reveal_strlit("Mines:");
            reveal_strlit("    Flags:");
            reveal_strlit("\r\n");
            assert(out@ =~= status_text(self.field@));
        }
        out
    }
}

} // verus!
