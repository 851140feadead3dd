//! The assisted moves: a reveal, or a flag toggle, on every closed cell
//! that touches a given cell, in the order of the block around it.

use vstd::prelude::*;
use crate::board::{flagged, nbor_col, nbor_row, non_open, Board};
use crate::cell::State;

verus! {

impl Board {
    /// The `k`-th position of the block around `(r, c)` is a closed cell
    /// that touches `(r, c)`.
    pub open spec fn closed_nbor(self, r: int, c: int, k: nat) -> bool {
        &&& k != 4
        &&& self.in_bounds(nbor_row(r, k as int), nbor_col(c, k as int))
        &&& self.at(nbor_row(r, k as int), nbor_col(c, k as int)).state == State::Closed
    }

    /// The closed cells that touch `(r, c)` revealed one after the other,
    /// from the `k`-th position of the block on, until a mine goes off: the
    /// board that is left, and whether a mine went off.
    pub open spec fn uncovered_around_from(self, r: int, c: int, k: nat) -> (Board, bool)
        decreases 9 - k,
    {
        if k >= 9 {
            (self, false)
        } else if self.closed_nbor(r, c, k) {
            let nr = nbor_row(r, k as int);
            let nc = nbor_col(c, k as int);
            if self.fatal_at(nr, nc) {
                (self, true)
            } else {
                self.uncovered(nr, nc).uncovered_around_from(r, c, k + 1)
            }
        } else {
            self.uncovered_around_from(r, c, k + 1)
        }
    }

    /// The outcome of revealing every closed cell that touches `(r, c)`;
    /// nothing happens where `(r, c)` is off the board.
    pub open spec fn uncovered_around(self, r: int, c: int) -> (Board, bool) {
        if self.in_bounds(r, c) {
            self.uncovered_around_from(r, c, 0)
        } else {
            (self, false)
        }
    }

    /// The flag toggled on each closed cell that touches `(r, c)`, from the
    /// `k`-th position of the block on.
    pub open spec fn toggled_around_from(self, r: int, c: int, k: nat) -> Board
        decreases 9 - k,
    {
        if k >= 9 {
            self
        } else if self.closed_nbor(r, c, k) {
            self.toggled(nbor_row(r, k as int), nbor_col(c, k as int)).toggled_around_from(
                r,
                c,
                k + 1,
            )
        } else {
            self.toggled_around_from(r, c, k + 1)
        }
    }

    /// The board after the flag was toggled on every closed cell that
    /// touches `(r, c)`; unchanged where `(r, c)` is off the board.
    pub open spec fn toggled_around(self, r: int, c: int) -> Board {
        if self.in_bounds(r, c) {
            self.toggled_around_from(r, c, 0)
        } else {
            self
        }
    }

    /// The cell at `(r, c)` is open and as many flags touch it as mines do:
    /// the player holds every mine around it for found.
    pub open spec fn satisfied_for_opening(self, r: int, c: int) -> bool {
        &&& self.in_bounds(r, c)
        &&& self.at(r, c).state == State::Open
        &&& self.count_around(r, c, flagged()) == self.at(r, c).neighbouring_bomb_count
    }

    /// The cell at `(r, c)` is open and as many cells that are not open
    /// touch it as mines do: each of them holds a mine.
    pub open spec fn satisfied_for_flagging(self, r: int, c: int) -> bool {
        &&& self.in_bounds(r, c)
        &&& self.at(r, c).state == State::Open
        &&& self.count_around(r, c, non_open()) == self.at(r, c).neighbouring_bomb_count
    }

    /// What the player's reveal at `(r, c)` gives: with assistance, on a
    /// cell satisfied for opening, the reveal of all closed cells around it;
    /// else the reveal of the cell. The board, and whether a mine went off.
    pub open spec fn player_uncovered(self, r: int, c: int, assisted: bool) -> (Board, bool) {
        if assisted && self.satisfied_for_opening(r, c) {
            self.uncovered_around(r, c)
        } else {
            (self.uncovered(r, c), self.fatal_at(r, c))
        }
    }

    /// What the player's flag at `(r, c)` gives: with assistance, on a cell
    /// satisfied for flagging, the closed cells around it are toggled
    /// first; the flag of the cell itself is toggled in any case.
    pub open spec fn player_flagged(self, r: int, c: int, assisted: bool) -> Board {
        if assisted && self.satisfied_for_flagging(r, c) {
            self.toggled_around(r, c).toggled(r, c)
        } else {
            self.toggled(r, c)
        }
    }
}

} // verus!
