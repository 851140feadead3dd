//! The mathematical model of a minefield: a row-major sequence of cells with
//! its tallies, and what each move makes of it.

use vstd::prelude::*;
use crate::cell::{Cell, Content, State};

verus! {

/// A minefield as a value: `cells` is row-major, `rows * cols` long.
pub struct Board {
    pub rows: nat,
    pub cols: nat,
    pub cells: Seq<Cell>,
    pub closed_empty_cells: nat,
    pub mine_count: nat,
    pub flag_count: nat,
}

/// Cells that hold a mine.
pub open spec fn mined() -> spec_fn(Cell) -> bool {
    |x: Cell| x.content == Content::Mine
}

/// Cells that carry a flag.
pub open spec fn flagged() -> spec_fn(Cell) -> bool {
    |x: Cell| x.state == State::Flagged
}

/// Cells that are closed, with or without a flag.
pub open spec fn non_open() -> spec_fn(Cell) -> bool {
    |x: Cell| x.state != State::Open
}

/// Cells that are closed and carry no flag.
pub open spec fn closed() -> spec_fn(Cell) -> bool {
    |x: Cell| x.state == State::Closed
}

/// Cells that hold no mine and are not open yet, flagged or not: the ones
/// left to open.
pub open spec fn unopened_empty() -> spec_fn(Cell) -> bool {
    |x: Cell| x.state != State::Open && x.content == Content::Empty
}

/// How many cells of `cells` satisfy `p`.
pub open spec fn count_where(cells: Seq<Cell>, p: spec_fn(Cell) -> bool) -> nat
    decreases cells.len(),
{
    if cells.len() == 0 {
        0
    } else {
        count_where(cells.drop_last(), p) + if p(cells.last()) { 1nat } else { 0nat }
    }
}

/// Two positions touch: they differ, by at most one row and one column.
pub open spec fn adjacent(r: int, c: int, r2: int, c2: int) -> bool {
    -1 <= r2 - r <= 1 && -1 <= c2 - c <= 1 && !(r2 == r && c2 == c)
}

/// The position lies in the square of side three centred at `(sr, sc)`.
pub open spec fn in_safe_zone(r: int, c: int, sr: int, sc: int) -> bool {
    -1 <= r - sr <= 1 && -1 <= c - sc <= 1
}

/// Row of the `k`-th position of the three-by-three block around row `r`,
/// counted row by row; `k == 4` is the centre.
pub open spec fn nbor_row(r: int, k: int) -> int {
    r + k / 3 - 1
}

/// Column of the `k`-th position of the three-by-three block around column `c`.
pub open spec fn nbor_col(c: int, k: int) -> int {
    c + k % 3 - 1
}

/// The mine percentage that is played with: never above 99.
pub open spec fn capped_percentage(mine_percentage: u8) -> u8 {
    if mine_percentage >= 100 {
        99
    } else {
        mine_percentage
    }
}

/// A draw makes the cell at `(r, c)` a mine: it is not above the capped
/// percentage, and the cell lies outside the safe zone around `(sr, sc)`.
pub open spec fn lays_mine(draw: u8, mine_percentage: u8, r: int, c: int, sr: int, sc: int) -> bool {
    draw <= capped_percentage(mine_percentage) && !in_safe_zone(r, c, sr, sc)
}

impl Board {
    /// The grid has at least one cell and as many as its sides say.
    pub open spec fn shaped(self) -> bool {
        self.rows >= 1 && self.cols >= 1 && self.cells.len() == self.rows * self.cols
    }

    pub open spec fn in_bounds(self, r: int, c: int) -> bool {
        0 <= r < self.rows && 0 <= c < self.cols
    }

    /// Where the cell at `(r, c)` stands in `cells`.
    pub open spec fn index(self, r: int, c: int) -> int {
        r * self.cols + c
    }

    pub open spec fn row_of(self, i: int) -> int {
        i / (self.cols as int)
    }

    pub open spec fn col_of(self, i: int) -> int {
        i % (self.cols as int)
    }

    pub open spec fn at(self, r: int, c: int) -> Cell {
        self.cells[self.index(r, c)]
    }

    /// This board with the cell at `(r, c)` replaced.
    pub open spec fn with_cell(self, r: int, c: int, cell: Cell) -> Board {
        Board { cells: self.cells.update(self.index(r, c), cell), ..self }
    }

    /// 1 if `(r, c)` is on the board and its cell satisfies `p`, else 0.
    pub open spec fn hit(self, r: int, c: int, p: spec_fn(Cell) -> bool) -> nat {
        if self.in_bounds(r, c) && p(self.at(r, c)) {
            1
        } else {
            0
        }
    }

    /// How many of the up to eight cells that touch `(r, c)` satisfy `p`.
    pub open spec fn count_around(self, r: int, c: int, p: spec_fn(Cell) -> bool) -> nat {
        self.hit(r - 1, c - 1, p) + self.hit(r - 1, c, p) + self.hit(r - 1, c + 1, p)
            + self.hit(r, c - 1, p) + self.hit(r, c + 1, p)
            + self.hit(r + 1, c - 1, p) + self.hit(r + 1, c, p) + self.hit(r + 1, c + 1, p)
    }

    /// The count over the first `k` positions of the block around `(r, c)`,
    /// the centre left out.
    pub open spec fn count_upto(self, r: int, c: int, p: spec_fn(Cell) -> bool, k: nat) -> nat
        decreases k,
    {
        if k == 0 {
            0
        } else {
            let j = (k - 1) as nat;
            self.count_upto(r, c, p, j) + if j == 4 {
                0
            } else {
                self.hit(nbor_row(r, j as int), nbor_col(c, j as int), p)
            }
        }
    }

    /// Number of mines that touch `(r, c)`.
    pub open spec fn mines_around(self, r: int, c: int) -> nat {
        self.count_around(r, c, mined())
    }

    /// The count stored at `(r, c)` is the number of mines that touch it.
    pub open spec fn count_true_at(self, r: int, c: int) -> bool {
        self.at(r, c).neighbouring_bomb_count == self.mines_around(r, c)
    }

    /// Every cell's stored count is the number of mines that touch it.
    pub open spec fn counts_true(self) -> bool {
        forall|r: int, c: int| self.in_bounds(r, c) ==> #[trigger] self.count_true_at(r, c)
    }

    /// The grid, the mine tally, the tally of cells left to open and the
    /// stored neighbour counts agree.
    pub open spec fn settled(self) -> bool {
        &&& self.shaped()
        &&& self.mine_count == count_where(self.cells, mined())
        &&& self.closed_empty_cells == count_where(self.cells, unopened_empty())
        &&& self.counts_true()
    }

    /// The board is consistent: it is settled, the flag tally is the number
    /// of flagged cells, and no more flags are out than there are mines.
    pub open spec fn wf(self) -> bool {
        &&& self.settled()
        &&& self.flag_count == count_where(self.cells, flagged())
        &&& self.flag_count <= self.mine_count
    }

    /// The board after the flag at `(r, c)` was toggled: unchanged off the
    /// board and on an open cell; a closed cell gets a flag while fewer
    /// flags are out than there are mines; a flagged cell loses its flag.
    pub open spec fn toggled(self, r: int, c: int) -> Board {
        if !self.in_bounds(r, c) {
            self
        } else if self.at(r, c).state == State::Closed && self.flag_count < self.mine_count {
            Board {
                cells: self.cells.update(
                    self.index(r, c),
                    self.at(r, c).with_state(State::Flagged),
                ),
                flag_count: self.flag_count + 1,
                ..self
            }
        } else if self.at(r, c).state == State::Flagged {
            Board {
                cells: self.cells.update(self.index(r, c), self.at(r, c).with_state(State::Closed)),
                flag_count: (self.flag_count - 1) as nat,
                ..self
            }
        } else {
            self
        }
    }

    /// `after` has the sides, the states and the contents of this board.
    pub open spec fn same_layout(self, after: Board) -> bool {
        &&& after.rows == self.rows
        &&& after.cols == self.cols
        &&& after.cells.len() == self.cells.len()
        &&& forall|i: int|
            0 <= i < self.cells.len() ==> (#[trigger] after.cells[i]).state == self.cells[i].state
                && after.cells[i].content == self.cells[i].content
    }

    /// Every cell is closed, and holds a mine exactly where its draw lays
    /// one, `draws` being in the order of `cells`.
    pub open spec fn laid_from(self, draws: Seq<u8>, mine_percentage: u8, sr: int, sc: int) -> bool {
        &&& draws.len() == self.cells.len()
        &&& forall|i: int|
            0 <= i < self.cells.len() ==> (#[trigger] self.cells[i]).state == State::Closed && (
            self.cells[i].content == Content::Mine <==> lays_mine(
                draws[i],
                mine_percentage,
                self.row_of(i),
                self.col_of(i),
                sr,
                sc,
            ))
    }

    /// Every cell is closed, and none in the safe zone around `(sr, sc)`
    /// holds a mine.
    pub open spec fn fresh_and_safe(self, sr: int, sc: int) -> bool {
        forall|r: int, c: int|
            self.in_bounds(r, c) ==> (#[trigger] self.at(r, c)).state == State::Closed && (
            in_safe_zone(r, c, sr, sc) ==> self.at(r, c).content == Content::Empty)
    }

    /// The game is won: nothing but mines is left closed.
    pub open spec fn won(self) -> bool {
        self.closed_empty_cells == 0
    }

    /// The board as built: every cell closed and empty, no mine, no flag.
    pub open spec fn blank(rows: nat, cols: nat) -> Board {
        Board {
            rows,
            cols,
            cells: Seq::new(rows * cols, |i: int| Cell::blank()),
            closed_empty_cells: rows * cols,
            mine_count: 0,
            flag_count: 0,
        }
    }
}

/// Positions and indices of a shaped board correspond one to one.
pub proof fn lemma_grid(b: Board)
    requires
        b.shaped(),
    ensures
        forall|r: int, c: int| b.in_bounds(r, c) ==> 0 <= #[trigger] b.index(r, c) < b.cells.len(),
        forall|r: int, c: int|
            b.in_bounds(r, c) ==> b.row_of(#[trigger] b.index(r, c)) == r && b.col_of(
                b.index(r, c),
            ) == c,
        forall|i: int|
            0 <= i < b.cells.len() ==> b.in_bounds(#[trigger] b.row_of(i), b.col_of(i))
                && b.index(b.row_of(i), b.col_of(i)) == i,
{
    let cols = b.cols as int;
    let rows = b.rows as int;
    assert forall|r: int, c: int| b.in_bounds(r, c) implies 0 <= #[trigger] b.index(r, c)
        < b.cells.len() && b.row_of(b.index(r, c)) == r && b.col_of(b.index(r, c)) == c by {
        assert(0 <= r * cols && r * cols + c < rows * cols) by (nonlinear_arith)
            requires
                0 <= r < rows,
                0 <= c < cols,
        ;
        vstd::arithmetic::div_mod::lemma_fundamental_div_mod_converse(r * cols + c, cols, r, c);
    }
    assert forall|i: int| 0 <= i < b.cells.len() implies b.in_bounds(
        #[trigger] b.row_of(i),
        b.col_of(i),
    ) && b.index(b.row_of(i), b.col_of(i)) == i by {
        vstd::arithmetic::div_mod::lemma_fundamental_div_mod(i, cols);
        vstd::arithmetic::div_mod::lemma_mod_bound(i, cols);
        let q = i / cols;
        let m = i % cols;
        assert(0 <= q < rows) by (nonlinear_arith)
            requires
                0 <= i < rows * cols,
                i == cols * q + m,
                0 <= m < cols,
                cols > 0,
        ;
        assert(cols * q == q * cols) by (nonlinear_arith);
    }
}

/// Replacing one cell changes a count by what the old and the new cell add.
pub proof fn lemma_count_update(cells: Seq<Cell>, i: int, cell: Cell, p: spec_fn(Cell) -> bool)
    requires
        0 <= i < cells.len(),
    ensures
        count_where(cells.update(i, cell), p) + (if p(cells[i]) { 1nat } else { 0nat })
            == count_where(cells, p) + (if p(cell) { 1nat } else { 0nat }),
    decreases cells.len(),
{
    if i == cells.len() - 1 {
        assert(cells.update(i, cell).drop_last() =~= cells.drop_last());
    } else {
        lemma_count_update(cells.drop_last(), i, cell, p);
        assert(cells.update(i, cell).drop_last() =~= cells.drop_last().update(i, cell));
    }
}

/// A longer prefix counts one more cell.
pub proof fn lemma_count_take(cells: Seq<Cell>, n: int, p: spec_fn(Cell) -> bool)
    requires
        0 <= n < cells.len(),
    ensures
        count_where(cells.take(n + 1), p) == count_where(cells.take(n), p) + (if p(cells[n]) {
            1nat
        } else {
            0nat
        }),
{
    assert(cells.take(n + 1).drop_last() =~= cells.take(n));
}

/// No count exceeds the number of cells, and a count is zero where no cell
/// satisfies the predicate.
pub proof fn lemma_count_bounds(cells: Seq<Cell>, p: spec_fn(Cell) -> bool)
    ensures
        count_where(cells, p) <= cells.len(),
        (forall|i: int| 0 <= i < cells.len() ==> !p(#[trigger] cells[i])) ==> count_where(cells, p)
            == 0,
    decreases cells.len(),
{
    if cells.len() > 0 {
        lemma_count_bounds(cells.drop_last(), p);
    }
}

/// The count around a cell is the count over all nine positions of its block.
pub proof fn lemma_count_around(b: Board, r: int, c: int, p: spec_fn(Cell) -> bool)
    ensures
        b.count_upto(r, c, p, 9) == b.count_around(r, c, p),
{
    reveal_with_fuel(Board::count_upto, 10);
}

/// The board as built is consistent.
pub proof fn lemma_blank_wf(rows: nat, cols: nat)
    requires
        rows >= 1,
        cols >= 1,
    ensures
        Board::blank(rows, cols).wf(),
{
    let b = Board::blank(rows, cols);
    lemma_grid(b);
    lemma_count_bounds(b.cells, mined());
    lemma_count_bounds(b.cells, flagged());
    lemma_count_all(b.cells, unopened_empty());
}

/// A count is the number of cells where every cell satisfies the predicate.
pub proof fn lemma_count_all(cells: Seq<Cell>, p: spec_fn(Cell) -> bool)
    requires
        forall|i: int| 0 <= i < cells.len() ==> p(#[trigger] cells[i]),
    ensures
        count_where(cells, p) == cells.len(),
    decreases cells.len(),
{
    if cells.len() > 0 {
        lemma_count_all(cells.drop_last(), p);
    }
}

/// Two grids whose cells agree on a predicate, place by place, count alike.
pub proof fn lemma_count_same(xs: Seq<Cell>, ys: Seq<Cell>, p: spec_fn(Cell) -> bool)
    requires
        xs.len() == ys.len(),
        forall|i: int| 0 <= i < xs.len() ==> p(xs[i]) == p(#[trigger] ys[i]),
    ensures
        count_where(xs, p) == count_where(ys, p),
    decreases xs.len(),
{
    if xs.len() > 0 {
        lemma_count_same(xs.drop_last(), ys.drop_last(), p);
    }
}

/// Boards of one layout have the same mines around every position.
pub proof fn lemma_same_layout_mines(b: Board, a: Board)
    requires
        b.shaped(),
        b.same_layout(a),
    ensures
        forall|x: int, y: int| #[trigger] a.mines_around(x, y) == b.mines_around(x, y),
{
    lemma_same_content_mines(b, a);
}

/// Boards with the same sides and the same contents have the same mines
/// around every position.
pub proof fn lemma_same_content_mines(b: Board, a: Board)
    requires
        b.shaped(),
        a.rows == b.rows,
        a.cols == b.cols,
        a.cells.len() == b.cells.len(),
        forall|i: int|
            0 <= i < b.cells.len() ==> (#[trigger] a.cells[i]).content == b.cells[i].content,
    ensures
        forall|x: int, y: int| #[trigger] a.mines_around(x, y) == b.mines_around(x, y),
{
    lemma_grid(b);
    assert forall|x: int, y: int| #[trigger] a.hit(x, y, mined()) == b.hit(x, y, mined()) by {
        if b.in_bounds(x, y) {
            assert(a.cells[b.index(x, y)] == a.at(x, y));
        }
    }
    assert forall|x: int, y: int| #[trigger] a.mines_around(x, y) == b.mines_around(x, y) by {
        assert(a.hit(x - 1, y - 1, mined()) == b.hit(x - 1, y - 1, mined()));
        assert(a.hit(x - 1, y, mined()) == b.hit(x - 1, y, mined()));
        assert(a.hit(x - 1, y + 1, mined()) == b.hit(x - 1, y + 1, mined()));
        assert(a.hit(x, y - 1, mined()) == b.hit(x, y - 1, mined()));
        assert(a.hit(x, y + 1, mined()) == b.hit(x, y + 1, mined()));
        assert(a.hit(x + 1, y - 1, mined()) == b.hit(x + 1, y - 1, mined()));
        assert(a.hit(x + 1, y, mined()) == b.hit(x + 1, y, mined()));
        assert(a.hit(x + 1, y + 1, mined()) == b.hit(x + 1, y + 1, mined()));
    }
}

/// A board laid from draws is closed everywhere and free of mines in the
/// safe zone.
pub proof fn lemma_laid_is_safe(b: Board, draws: Seq<u8>, mine_percentage: u8, sr: int, sc: int)
    requires
        b.shaped(),
        b.laid_from(draws, mine_percentage, sr, sc),
    ensures
        b.fresh_and_safe(sr, sc),
{
    lemma_grid(b);
    assert forall|r: int, c: int| b.in_bounds(r, c) implies (#[trigger] b.at(r, c)).state
        == State::Closed && (in_safe_zone(r, c, sr, sc) ==> b.at(r, c).content
        == Content::Empty) by {
        let i = b.index(r, c);
        assert(b.cells[i] == b.at(r, c));
        assert(b.row_of(i) == r && b.col_of(i) == c);
    }
}

/// No more than eight mines touch a cell.
pub proof fn lemma_count_at_most_eight(b: Board, r: int, c: int)
    requires
        b.counts_true(),
        b.in_bounds(r, c),
    ensures
        b.at(r, c).neighbouring_bomb_count <= 8,
{
    assert(b.count_true_at(r, c));
}

} // verus!
