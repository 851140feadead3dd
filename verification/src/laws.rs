//! What holds of the moves, whatever board they are made on.

use vstd::prelude::*;
use crate::board::{
    adjacent, count_where, flagged, in_safe_zone, lemma_count_same, lemma_grid,
    lemma_same_content_mines, mined, unopened_empty, Board,
};
use crate::cell::{Cell, Content, State};
use crate::flags::lemma_toggle_wf;
use crate::flood::lemma_zero_means_clear;

verus! {

/// Cells that are closed without a flag and hold no mine.
pub open spec fn closed_and_empty() -> spec_fn(Cell) -> bool {
    |x: Cell| x.state == State::Closed && x.content == Content::Empty
}

/// Two predicates that agree on every cell of a grid count alike on it.
pub proof fn lemma_count_agree(cells: Seq<Cell>, p: spec_fn(Cell) -> bool, q: spec_fn(Cell) -> bool)
    requires
        forall|i: int| 0 <= i < cells.len() ==> p(#[trigger] cells[i]) == q(cells[i]),
    ensures
        count_where(cells, p) == count_where(cells, q),
    decreases cells.len(),
{
    if cells.len() > 0 {
        lemma_count_agree(cells.drop_last(), p, q);
    }
}

/// A count is zero exactly where no cell satisfies the predicate.
pub proof fn lemma_count_zero(cells: Seq<Cell>, p: spec_fn(Cell) -> bool)
    ensures
        count_where(cells, p) == 0 <==> forall|i: int| 0 <= i < cells.len() ==> !p(#[trigger] cells[i]),
    decreases cells.len(),
{
    if cells.len() > 0 {
        lemma_count_zero(cells.drop_last(), p);
        let front = cells.drop_last();
        if count_where(cells, p) == 0 {
            assert forall|i: int| 0 <= i < cells.len() implies !p(#[trigger] cells[i]) by {
                if i < front.len() {
                    assert(front[i] == cells[i]);
                }
            }
        } else if !p(cells.last()) {
            let i = choose|i: int| 0 <= i < front.len() && p(#[trigger] front[i]);
            assert(p(cells[i]));
        }
    }
}

/// On a consistent board on which no flag stands on an empty cell, the
/// tally of cells left to open is the number of cells that are closed and
/// empty.
pub proof fn lemma_tally_is_closed_empty(b: Board)
    requires
        b.wf(),
        forall|i: int|
            0 <= i < b.cells.len() ==> !((#[trigger] b.cells[i]).state == State::Flagged
                && b.cells[i].content == Content::Empty),
    ensures
        b.closed_empty_cells == count_where(b.cells, closed_and_empty()),
{
    lemma_count_agree(b.cells, unopened_empty(), closed_and_empty());
}

/// A consistent board is won exactly when each of its empty cells is open.
pub proof fn lemma_won_iff_all_open(b: Board)
    requires
        b.wf(),
    ensures
        b.won() <==> forall|i: int|
            0 <= i < b.cells.len() && (#[trigger] b.cells[i]).content == Content::Empty
                ==> b.cells[i].state == State::Open,
{
    lemma_count_zero(b.cells, unopened_empty());
}

/// The flooded board differs from the board only in closed cells that were
/// opened.
pub proof fn lemma_flooded_only_opens(b: Board, r: int, c: int)
    requires
        b.shaped(),
    ensures
        b.only_opens(b.flooded(r, c)),
{
    lemma_grid(b);
    let f = b.flooded(r, c);
    assert forall|i: int| 0 <= i < b.cells.len() implies (#[trigger] f.cells[i]) == b.cells[i] || (
    b.cells[i].state == State::Closed && f.cells[i] == b.cells[i].with_state(State::Open)) by {
        let tr = b.row_of(i);
        let tc = b.col_of(i);
        if b.floods_to(r, c, tr, tc) {
            let n = choose|n: nat| b.reach_in(r, c, tr, tc, n);
            lemma_reach_ends_closed(b, r, c, tr, tc, n);
            assert(b.index(tr, tc) == i);
        }
    }
}

/// What a flood reaches is on the board and closed.
pub proof fn lemma_reach_ends_closed(b: Board, r: int, c: int, tr: int, tc: int, n: nat)
    requires
        b.reach_in(r, c, tr, tc, n),
    ensures
        b.in_bounds(tr, tc),
        b.at(tr, tc).state == State::Closed,
    decreases n,
{
    if n > 0 {
        let (mr, mc) = choose|mr: int, mc: int|
            #[trigger] adjacent(r, c, mr, mc) && b.reach_in(mr, mc, tr, tc, (n - 1) as nat);
        lemma_reach_ends_closed(b, mr, mc, tr, tc, (n - 1) as nat);
    }
}

/// A reveal keeps a consistent board consistent.
pub proof fn lemma_uncovered_wf(b: Board, r: int, c: int)
    requires
        b.wf(),
    ensures
        b.uncovered(r, c).wf(),
{
    let a = b.uncovered(r, c);
    if a != b {
        lemma_grid(b);
        lemma_flooded_only_opens(b, r, c);
        lemma_count_same(b.cells, a.cells, mined());
        lemma_count_same(b.cells, a.cells, flagged());
        lemma_same_content_mines(b, a);
        assert forall|x: int, y: int| a.in_bounds(x, y) implies #[trigger] a.count_true_at(
            x,
            y,
        ) by {
            assert(b.count_true_at(x, y));
            assert(a.cells[b.index(x, y)] == a.at(x, y));
            assert(a.mines_around(x, y) == b.mines_around(x, y));
        }
    }
}

/// A flood that starts on an empty cell of a board with true neighbour
/// counts reaches empty cells only: it never opens a mine.
pub proof fn lemma_flood_spares_mines(b: Board, r: int, c: int, tr: int, tc: int, n: nat)
    requires
        b.counts_true(),
        b.reach_in(r, c, tr, tc, n),
        b.at(r, c).content == Content::Empty,
    ensures
        b.at(tr, tc).content == Content::Empty,
    decreases n,
{
    if n > 0 {
        let (mr, mc) = choose|mr: int, mc: int|
            #[trigger] adjacent(r, c, mr, mc) && b.reach_in(mr, mc, tr, tc, (n - 1) as nat);
        lemma_zero_means_clear(b, r, c, mr, mc);
        lemma_flood_spares_mines(b, mr, mc, tr, tc, (n - 1) as nat);
    }
}

/// A reveal never opens a mine: on a consistent board every mine has, after
/// a reveal anywhere, the state it had before.
pub proof fn lemma_uncover_spares_mines(b: Board, r: int, c: int, i: int)
    requires
        b.wf(),
        0 <= i < b.cells.len(),
        b.cells[i].content == Content::Mine,
    ensures
        b.uncovered(r, c).cells[i] == b.cells[i],
{
    let tr = b.row_of(i);
    let tc = b.col_of(i);
    lemma_grid(b);
    if b.in_bounds(r, c) && !b.fatal_at(r, c) && b.floods_to(r, c, tr, tc) {
        let n = choose|n: nat| b.reach_in(r, c, tr, tc, n);
        assert(b.index(tr, tc) == i);
        lemma_flood_spares_mines(b, r, c, tr, tc, n);
    }
}

/// A second reveal at the same place changes nothing.
pub proof fn lemma_uncover_twice(b: Board, r: int, c: int)
    requires
        b.shaped(),
    ensures
        b.uncovered(r, c).uncovered(r, c) == b.uncovered(r, c),
{
    let a = b.uncovered(r, c);
    if b.in_bounds(r, c) && !b.fatal_at(r, c) {
        lemma_grid(b);
        lemma_flooded_only_opens(b, r, c);
        let i = b.index(r, c);
        assert(b.row_of(i) == r && b.col_of(i) == c);
        assert(a.cells[i] == a.at(r, c));
        if b.at(r, c).state == State::Closed {
            assert(b.reach_in(r, c, r, c, 0));
            assert(b.floods_to(r, c, r, c));
        }
        assert(a.at(r, c).state != State::Closed);
        assert(!a.fatal_at(r, c));
        assert forall|tr: int, tc: int| !a.floods_to(r, c, tr, tc) by {
            assert forall|n: nat| !a.reach_in(r, c, tr, tc, n) by {}
        }
        assert(a.flooded(r, c).cells =~= a.cells);
    }
}

/// With as many flags out as there are mines, toggling the flag of a
/// closed cell changes nothing: the cell stays closed, the tally stays.
pub proof fn lemma_flag_budget(b: Board, r: int, c: int)
    requires
        b.in_bounds(r, c),
        b.at(r, c).state == State::Closed,
        b.flag_count >= b.mine_count,
    ensures
        b.toggled(r, c) == b,
{
}

/// Toggling a flag twice at one place of a consistent board gives the
/// board back.
pub proof fn lemma_toggle_twice(b: Board, r: int, c: int)
    requires
        b.wf(),
    ensures
        b.toggled(r, c).toggled(r, c) == b,
{
    if b.in_bounds(r, c) {
        lemma_grid(b);
        lemma_toggle_wf(b, r, c);
        let a = b.toggled(r, c);
        assert(a.toggled(r, c).cells =~= b.cells);
    }
}

/// A move of the player on the field.
pub enum Move {
    Uncover { row: int, col: int },
    ToggleFlag { row: int, col: int },
}

impl Board {
    /// The board after one move.
    pub open spec fn after_move(self, m: Move) -> Board {
        match m {
            Move::Uncover { row, col } => self.uncovered(row, col),
            Move::ToggleFlag { row, col } => self.toggled(row, col),
        }
    }

    /// The board after a sequence of moves, made in order.
    pub open spec fn after_moves(self, moves: Seq<Move>) -> Board
        decreases moves.len(),
    {
        if moves.len() == 0 {
            self
        } else {
            self.after_moves(moves.drop_last()).after_move(moves.last())
        }
    }

    /// `after` has the sides of this board, and each of its cells holds
    /// what the cell held here, with the same count of mines around it.
    pub open spec fn same_contents(self, after: Board) -> bool {
        &&& after.rows == self.rows
        &&& after.cols == self.cols
        &&& after.mine_count == self.mine_count
        &&& after.cells.len() == self.cells.len()
        &&& forall|i: int|
            0 <= i < self.cells.len() ==> (#[trigger] after.cells[i]).content
                == self.cells[i].content && after.cells[i].neighbouring_bomb_count
                == self.cells[i].neighbouring_bomb_count
    }
}

/// A move changes states only: what the cells hold and the counts of mines
/// around them stay as they were laid.
pub proof fn lemma_move_keeps_contents(b: Board, m: Move)
    requires
        b.shaped(),
    ensures
        b.same_contents(b.after_move(m)),
{
    lemma_grid(b);
    match m {
        Move::Uncover { row, col } => {
            lemma_flooded_only_opens(b, row, col);
        },
        Move::ToggleFlag { row, col } => {},
    }
}

/// Whatever moves are made on a consistent board, in whatever order, the
/// board stays consistent: the tallies are those of the grid, no more flags
/// are out than there are mines, and the cells hold what they held.
pub proof fn lemma_moves_keep_wf(b: Board, moves: Seq<Move>)
    requires
        b.wf(),
    ensures
        b.after_moves(moves).wf(),
        b.same_contents(b.after_moves(moves)),
    decreases moves.len(),
{
    if moves.len() > 0 {
        let before = b.after_moves(moves.drop_last());
        lemma_moves_keep_wf(b, moves.drop_last());
        lemma_move_keeps_contents(before, moves.last());
        match moves.last() {
            Move::Uncover { row, col } => {
                lemma_uncovered_wf(before, row, col);
            },
            Move::ToggleFlag { row, col } => {
                lemma_toggle_wf(before, row, col);
            },
        }
    }
}

/// The first reveal is safe: on a consistent board that is closed
/// everywhere and free of mines in the safe zone around `(r, c)`, a reveal
/// at `(r, c)` hits no mine, finds no mine around the cell, and opens the
/// whole safe zone.
pub proof fn lemma_first_reveal_is_safe(b: Board, r: int, c: int)
    requires
        b.wf(),
        b.in_bounds(r, c),
        b.fresh_and_safe(r, c),
    ensures
        !b.fatal_at(r, c),
        b.at(r, c).neighbouring_bomb_count == 0,
        forall|x: int, y: int|
            b.in_bounds(x, y) && in_safe_zone(x, y, r, c) ==> (#[trigger] b.uncovered(r, c).at(
                x,
                y,
            )).state == State::Open,
{
    lemma_grid(b);
    assert(b.at(r, c).state == State::Closed && b.at(r, c).content == Content::Empty);
    assert(b.count_true_at(r, c));
    let a = b.uncovered(r, c);
    assert forall|x: int, y: int| b.in_bounds(x, y) && in_safe_zone(x, y, r, c) implies (
    #[trigger] a.at(x, y)).state == State::Open by {
        let i = b.index(x, y);
        assert(b.row_of(i) == x && b.col_of(i) == y);
        assert(b.at(x, y).state == State::Closed);
        assert(b.reach_in(x, y, x, y, 0));
        if x == r && y == c {
            assert(b.floods_to(r, c, x, y));
        } else {
            assert(adjacent(r, c, x, y));
            assert(b.reach_in(r, c, x, y, 1));
            assert(b.floods_to(r, c, x, y));
        }
        assert(a.cells[i] == b.cells[i].with_state(State::Open));
    }
}

} // verus!
