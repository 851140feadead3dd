//! What a reveal opens: the closed cells that a flood from the clicked cell
//! reaches, spreading on from every cell that has no mine around it.

use vstd::prelude::*;
use crate::board::{
    adjacent, closed, count_where, flagged, lemma_count_same, lemma_count_update, lemma_grid,
    mined, nbor_col, nbor_row, unopened_empty, Board,
};
use crate::cell::{Content, State};

verus! {

impl Board {
    /// The flood gets from `(r, c)` to `(tr, tc)` in exactly `n` steps: both
    /// ends and every cell between are closed, each step goes to a touching
    /// cell, and every cell stepped from has no mine around it.
    pub open spec fn reach_in(self, r: int, c: int, tr: int, tc: int, n: nat) -> bool
        decreases n,
    {
        &&& self.in_bounds(r, c)
        &&& self.at(r, c).state == State::Closed
        &&& if n == 0 {
            r == tr && c == tc
        } else {
            &&& self.at(r, c).neighbouring_bomb_count == 0
            &&& exists|mr: int, mc: int|
                #[trigger] adjacent(r, c, mr, mc) && self.reach_in(mr, mc, tr, tc, (n - 1) as nat)
        }
    }

    /// A flood started at `(r, c)` opens `(tr, tc)`.
    pub open spec fn floods_to(self, r: int, c: int, tr: int, tc: int) -> bool {
        exists|n: nat| self.reach_in(r, c, tr, tc, n)
    }

    /// The board after a flood from `(r, c)`: the cells it reaches are open,
    /// all others are as before, and the tally of cells left to open is
    /// that of the new grid.
    pub open spec fn flooded(self, r: int, c: int) -> Board {
        let cells = Seq::new(
            self.cells.len(),
            |i: int|
                if self.floods_to(r, c, self.row_of(i), self.col_of(i)) {
                    self.cells[i].with_state(State::Open)
                } else {
                    self.cells[i]
                },
        );
        Board { cells, closed_empty_cells: count_where(cells, unopened_empty()), ..self }
    }

    /// A reveal at `(r, c)` hits a mine that no flag protects.
    pub open spec fn fatal_at(self, r: int, c: int) -> bool {
        &&& self.in_bounds(r, c)
        &&& self.at(r, c).content == Content::Mine
        &&& self.at(r, c).state != State::Flagged
    }

    /// The board after a reveal at `(r, c)`: unchanged off the board and on
    /// a fatal cell, flooded from `(r, c)` otherwise.
    pub open spec fn uncovered(self, r: int, c: int) -> Board {
        if self.in_bounds(r, c) && !self.fatal_at(r, c) {
            self.flooded(r, c)
        } else {
            self
        }
    }

    /// This board with the cell at `(r, c)` opened and one cell less to open.
    pub open spec fn opened(self, r: int, c: int) -> Board {
        Board {
            cells: self.cells.update(self.index(r, c), self.at(r, c).with_state(State::Open)),
            closed_empty_cells: (self.closed_empty_cells - 1) as nat,
            ..self
        }
    }

    /// `after` is this board with some closed cells opened and nothing else
    /// changed but the tally of cells left to open.
    pub open spec fn only_opens(self, after: Board) -> bool {
        &&& after.rows == self.rows
        &&& after.cols == self.cols
        &&& after.mine_count == self.mine_count
        &&& after.flag_count == self.flag_count
        &&& after.cells.len() == self.cells.len()
        &&& forall|i: int|
            0 <= i < self.cells.len() ==> (#[trigger] after.cells[i]) == self.cells[i] || (
            self.cells[i].state == State::Closed && after.cells[i] == self.cells[i].with_state(
                State::Open,
            ))
    }

    /// The cell at `(r, c)` is closed here and open in `after`.
    pub open spec fn newly_open(self, after: Board, r: int, c: int) -> bool {
        &&& self.in_bounds(r, c)
        &&& self.at(r, c).state == State::Closed
        &&& after.at(r, c).state == State::Open
    }

    /// No cell that touches `(r, c)` is closed.
    pub open spec fn none_closed_around(self, r: int, c: int) -> bool {
        forall|nr: int, nc: int|
            self.in_bounds(nr, nc) && adjacent(r, c, nr, nc) ==> (#[trigger] self.at(
                nr,
                nc,
            )).state != State::Closed
    }

    /// Every cell opened between this board and `after` is one that a flood
    /// from `(r, c)` reaches.
    pub open spec fn flood_sound(self, after: Board, r: int, c: int) -> bool {
        forall|tr: int, tc: int| #[trigger]
            self.newly_open(after, tr, tc) ==> self.floods_to(r, c, tr, tc)
    }

    /// The flood went on from every cell it opened that has no mine around
    /// it, but perhaps from `(r, c)`.
    pub open spec fn flood_spread_but(self, after: Board, r: int, c: int) -> bool {
        forall|tr: int, tc: int|
            #[trigger] self.newly_open(after, tr, tc) && self.at(tr, tc).neighbouring_bomb_count
                == 0 && !(tr == r && tc == c) ==> after.none_closed_around(tr, tc)
    }

    /// The flood went on from every cell it opened that has no mine around it.
    pub open spec fn flood_spread(self, after: Board) -> bool {
        forall|tr: int, tc: int|
            #[trigger] self.newly_open(after, tr, tc) && self.at(tr, tc).neighbouring_bomb_count
                == 0 ==> after.none_closed_around(tr, tc)
    }
}

/// Giving a cell another state leaves every mine where it was.
pub proof fn lemma_restate_keeps_mines(b: Board, r: int, c: int, s: State)
    requires
        b.shaped(),
        b.in_bounds(r, c),
    ensures
        forall|x: int, y: int|
            b.in_bounds(x, y) ==> (#[trigger] b.with_cell(r, c, b.at(r, c).with_state(s)).at(x, y))
                == if x == r && y == c {
                b.at(r, c).with_state(s)
            } else {
                b.at(x, y)
            },
        forall|x: int, y: int| #[trigger]
            b.with_cell(r, c, b.at(r, c).with_state(s)).mines_around(x, y) == b.mines_around(x, y),
        count_where(b.with_cell(r, c, b.at(r, c).with_state(s)).cells, mined()) == count_where(
            b.cells,
            mined(),
        ),
{
    let a = b.with_cell(r, c, b.at(r, c).with_state(s));
    lemma_grid(b);
    lemma_grid(a);
    assert forall|x: int, y: int| b.in_bounds(x, y) implies (#[trigger] a.at(x, y)) == if x == r
        && y == c {
        b.at(r, c).with_state(s)
    } else {
        b.at(x, y)
    } by {
        assert(b.row_of(b.index(x, y)) == x && b.col_of(b.index(x, y)) == y);
        assert(b.row_of(b.index(r, c)) == r && b.col_of(b.index(r, c)) == c);
    }
    assert forall|x: int, y: int| #[trigger] a.hit(x, y, mined()) == b.hit(x, y, mined()) by {
        if b.in_bounds(x, y) {
            assert(a.at(x, y).content == b.at(x, y).content);
        }
    }
    assert forall|x: int, y: int| #[trigger] a.mines_around(x, y) == b.mines_around(x, y) by {
        assert(a.hit(x - 1, y - 1, mined()) == b.hit(x - 1, y - 1, mined()));
        assert(a.hit(x - 1, y, mined()) == b.hit(x - 1, y, mined()));
        assert(a.hit(x - 1, y + 1, mined()) == b.hit(x - 1, y + 1, mined()));
        assert(a.hit(x, y - 1, mined()) == b.hit(x, y - 1, mined()));
        assert(a.hit(x, y + 1, mined()) == b.hit(x, y + 1, mined()));
        assert(a.hit(x + 1, y - 1, mined()) == b.hit(x + 1, y - 1, mined()));
        assert(a.hit(x + 1, y, mined()) == b.hit(x + 1, y, mined()));
        assert(a.hit(x + 1, y + 1, mined()) == b.hit(x + 1, y + 1, mined()));
    }
    lemma_count_update(b.cells, b.index(r, c), b.at(r, c).with_state(s), mined());
}

/// A cell with no mine around it touches no mine.
pub proof fn lemma_zero_means_clear(b: Board, r: int, c: int, nr: int, nc: int)
    requires
        b.counts_true(),
        b.in_bounds(r, c),
        b.at(r, c).neighbouring_bomb_count == 0,
        b.in_bounds(nr, nc),
        adjacent(r, c, nr, nc),
    ensures
        b.at(nr, nc).content == Content::Empty,
{
    assert(b.count_true_at(r, c));
    assert(b.hit(nr, nc, mined()) == 0);
}

/// Opening a closed empty cell of a settled board leaves it settled, with
/// one closed cell less.
pub proof fn lemma_open_settled(b: Board, r: int, c: int)
    requires
        b.settled(),
        b.in_bounds(r, c),
        b.at(r, c).state == State::Closed,
        b.at(r, c).content == Content::Empty,
    ensures
        b.closed_empty_cells >= 1,
        b.opened(r, c).settled(),
        b.only_opens(b.opened(r, c)),
        b.opened(r, c).at(r, c) == b.at(r, c).with_state(State::Open),
        count_where(b.opened(r, c).cells, closed()) < count_where(b.cells, closed()),
        b.flood_sound(b.opened(r, c), r, c),
        b.flood_spread_but(b.opened(r, c), r, c),
{
    let a = b.opened(r, c);
    let w = b.with_cell(r, c, b.at(r, c).with_state(State::Open));
    assert(a.cells == w.cells);
    lemma_grid(b);
    lemma_restate_keeps_mines(b, r, c, State::Open);
    lemma_count_update(b.cells, b.index(r, c), b.at(r, c).with_state(State::Open), unopened_empty());
    lemma_count_update(b.cells, b.index(r, c), b.at(r, c).with_state(State::Open), closed());
    assert forall|x: int, y: int| a.in_bounds(x, y) implies #[trigger] a.count_true_at(x, y) by {
        assert(b.count_true_at(x, y));
        assert(a.at(x, y) == w.at(x, y));
        assert(w.mines_around(x, y) == b.mines_around(x, y));
        assert(a.mines_around(x, y) == w.mines_around(x, y));
    }
    assert(b.reach_in(r, c, r, c, 0));
    assert forall|tr: int, tc: int| #[trigger] b.newly_open(a, tr, tc) implies tr == r && tc
        == c by {
        assert(a.at(tr, tc) == w.at(tr, tc));
    }
}

/// A flood on a board with some cells already opened reaches only what it
/// reached before they were opened.
pub proof fn lemma_reach_mono(b: Board, mid: Board, r: int, c: int, tr: int, tc: int, n: nat)
    requires
        b.shaped(),
        b.only_opens(mid),
        mid.reach_in(r, c, tr, tc, n),
    ensures
        b.reach_in(r, c, tr, tc, n),
    decreases n,
{
    lemma_grid(b);
    let i = b.index(r, c);
    assert(mid.cells[i] == mid.at(r, c));
    if n > 0 {
        let (mr, mc) = choose|mr: int, mc: int|
            #[trigger] adjacent(r, c, mr, mc) && mid.reach_in(mr, mc, tr, tc, (n - 1) as nat);
        lemma_reach_mono(b, mid, mr, mc, tr, tc, (n - 1) as nat);
    }
}

/// Where the flood went on from every cell it opened, and opened its start,
/// it opened all that a flood from there reaches.
pub proof fn lemma_flood_complete(b: Board, aft: Board, r: int, c: int, tr: int, tc: int, n: nat)
    requires
        b.shaped(),
        b.only_opens(aft),
        b.flood_spread(aft),
        b.newly_open(aft, r, c),
        b.reach_in(r, c, tr, tc, n),
    ensures
        b.newly_open(aft, tr, tc),
    decreases n,
{
    if n > 0 {
        let (mr, mc) = choose|mr: int, mc: int|
            #[trigger] adjacent(r, c, mr, mc) && b.reach_in(mr, mc, tr, tc, (n - 1) as nat);
        lemma_grid(b);
        assert(aft.none_closed_around(r, c));
        assert(aft.in_bounds(mr, mc));
        assert(aft.at(mr, mc).state != State::Closed);
        assert(aft.cells[b.index(mr, mc)] == aft.at(mr, mc));
        lemma_flood_complete(b, aft, mr, mc, tr, tc, (n - 1) as nat);
    }
}

/// One more flood from a cell that touches `(r, c)`, itself opened and with
/// no mine around it, keeps what holds of the flood from `(r, c)` so far.
pub proof fn lemma_flood_step(b: Board, mid: Board, aft: Board, r: int, c: int, nr: int, nc: int)
    requires
        b.shaped(),
        b.in_bounds(r, c),
        b.at(r, c).state == State::Closed,
        b.at(r, c).neighbouring_bomb_count == 0,
        adjacent(r, c, nr, nc),
        b.only_opens(mid),
        mid.only_opens(aft),
        b.flood_sound(mid, r, c),
        mid.flood_sound(aft, nr, nc),
        b.flood_spread_but(mid, r, c),
        mid.flood_spread(aft),
    ensures
        b.only_opens(aft),
        b.flood_sound(aft, r, c),
        b.flood_spread_but(aft, r, c),
        forall|x: int, y: int|
            b.in_bounds(x, y) && mid.at(x, y).state != State::Closed ==> (#[trigger] aft.at(
                x,
                y,
            )).state != State::Closed,
        aft.at(r, c).neighbouring_bomb_count == 0,
{
    lemma_grid(b);
    assert forall|x: int, y: int| b.in_bounds(x, y) implies (mid.at(x, y).state != State::Closed
        ==> (#[trigger] aft.at(x, y)).state != State::Closed) && (b.newly_open(aft, x, y)
        ==> b.newly_open(mid, x, y) || mid.newly_open(aft, x, y)) && aft.at(
        x,
        y,
    ).neighbouring_bomb_count == b.at(x, y).neighbouring_bomb_count by {
        let i = b.index(x, y);
        assert(aft.cells[i] == aft.at(x, y));
        assert(mid.cells[i] == mid.at(x, y));
    }
    assert forall|i: int| 0 <= i < b.cells.len() implies (#[trigger] aft.cells[i]) == b.cells[i]
        || (b.cells[i].state == State::Closed && aft.cells[i] == b.cells[i].with_state(
        State::Open,
    )) by {
        assert(mid.cells[i] == b.cells[i] || (b.cells[i].state == State::Closed && mid.cells[i]
            == b.cells[i].with_state(State::Open)));
    }
    assert forall|tr: int, tc: int| #[trigger] b.newly_open(aft, tr, tc) implies b.floods_to(
        r,
        c,
        tr,
        tc,
    ) by {
        assert(aft.at(tr, tc).state == State::Open);
        if !b.newly_open(mid, tr, tc) {
            assert(mid.newly_open(aft, tr, tc));
            let n = choose|n: nat| mid.reach_in(nr, nc, tr, tc, n);
            lemma_reach_mono(b, mid, nr, nc, tr, tc, n);
            assert(b.reach_in(r, c, tr, tc, n + 1));
        }
    }
    assert forall|tr: int, tc: int|
        #[trigger] b.newly_open(aft, tr, tc) && b.at(tr, tc).neighbouring_bomb_count == 0 && !(tr
            == r && tc == c) implies aft.none_closed_around(tr, tc) by {
        assert(aft.at(tr, tc).state == State::Open);
        if b.newly_open(mid, tr, tc) {
            assert(mid.none_closed_around(tr, tc));
            assert forall|x: int, y: int|
                aft.in_bounds(x, y) && adjacent(tr, tc, x, y) implies (#[trigger] aft.at(
                x,
                y,
            )).state != State::Closed by {
                assert(mid.at(x, y).state != State::Closed);
            }
        } else {
            assert(mid.newly_open(aft, tr, tc));
            assert(mid.cells[b.index(tr, tc)] == mid.at(tr, tc));
        }
    }
}

/// A board on which a flood from `(r, c)` opened its start, only what it
/// reaches, and went on from every cell opened with no mine around it, is
/// the flooded board.
pub proof fn lemma_flood_exact(b: Board, aft: Board, r: int, c: int)
    requires
        b.shaped(),
        b.in_bounds(r, c),
        b.only_opens(aft),
        b.flood_sound(aft, r, c),
        b.flood_spread(aft),
        aft.at(r, c).state != State::Closed,
        aft.closed_empty_cells == count_where(aft.cells, unopened_empty()),
    ensures
        aft == b.flooded(r, c),
{
    lemma_grid(b);
    let f = b.flooded(r, c);
    assert(aft.cells[b.index(r, c)] == aft.at(r, c));
    assert forall|i: int| 0 <= i < b.cells.len() implies aft.cells[i] == f.cells[i] by {
        let tr = b.row_of(i);
        let tc = b.col_of(i);
        assert(b.index(tr, tc) == i);
        assert(aft.at(tr, tc) == aft.cells[i]);
        if b.floods_to(r, c, tr, tc) {
            let n = choose|n: nat| b.reach_in(r, c, tr, tc, n);
            assert(b.newly_open(aft, r, c));
            lemma_flood_complete(b, aft, r, c, tr, tc, n);
        } else {
            assert(!b.newly_open(aft, tr, tc));
        }
    }
    assert(aft.cells =~= f.cells);
}

/// Opening cells moves no flag.
pub proof fn lemma_only_opens_keeps_flags(b: Board, aft: Board)
    requires
        b.only_opens(aft),
    ensures
        count_where(aft.cells, flagged()) == count_where(b.cells, flagged()),
{
    lemma_count_same(b.cells, aft.cells, flagged());
}

/// The positions that touch `(r, c)` are those of the block around it, the
/// centre left out.
pub proof fn lemma_block_covers(r: int, c: int, nr: int, nc: int)
    requires
        adjacent(r, c, nr, nc),
    ensures
        ({
            let k = (nr - r + 1) * 3 + (nc - c + 1);
            0 <= k < 9 && k != 4 && nbor_row(r, k) == nr && nbor_col(c, k) == nc
        }),
{
}

} // verus!
