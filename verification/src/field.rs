//! The minefield: the grid of cells with its tallies, and the moves on it.

use vstd::prelude::*;
use crate::board::{
    adjacent, closed, count_where, flagged, in_safe_zone, lemma_blank_wf, lemma_count_around,
    lemma_count_bounds, lemma_count_same, lemma_count_take, lemma_grid, lemma_laid_is_safe,
    lemma_same_layout_mines, mined, nbor_col, nbor_row, non_open, unopened_empty, Board,
};
use crate::chance::draw_between;
use crate::flags::lemma_toggle_wf;
use crate::flood::{
    lemma_block_covers, lemma_flood_exact, lemma_flood_step, lemma_only_opens_keeps_flags,
    lemma_open_settled, lemma_zero_means_clear,
};
use crate::cell::{Cell, Content, State};

verus! {

/// A rectangular grid of cells, stored row by row, with its tallies.
pub struct Field {
    rows: usize,
    cols: usize,
    grid: Vec<Cell>,
    closed_empty_cells: usize,
    mine_count: usize,
    flag_count: usize,
}

impl View for Field {
    type V = Board;

    closed spec fn view(&self) -> Board {
        Board {
            rows: self.rows as nat,
            cols: self.cols as nat,
            cells: self.grid@,
            closed_empty_cells: self.closed_empty_cells as nat,
            mine_count: self.mine_count as nat,
            flag_count: self.flag_count as nat,
        }
    }
}

/// The cell is closed, with or without a flag.
fn is_not_open(c: &Cell) -> (b: bool)
    ensures
        b == (c.state != State::Open),
{
    !c.is_open()
}

/// The two coordinates differ by one at most.
fn within_one(a: usize, b: usize) -> (near: bool)
    ensures
        near == (-1 <= a - b <= 1),
{
    if a >= b {
        a - b < 2
    } else {
        b - a < 2
    }
}

impl Field {
    /// The grid has at least one cell and as many as the sides say.
    #[verifier::type_invariant]
    spec fn shape_inv(self) -> bool {
        self.rows >= 1 && self.cols >= 1 && self.grid@.len() == self.rows * self.cols
    }

    /// Builds an empty field: every cell closed and empty. A side of zero
    /// is taken as one.
    pub fn new(rows: usize, cols: usize) -> (f: Self)
        requires
            (if rows == 0 { 1 } else { rows as int }) * (if cols == 0 { 1 } else { cols as int })
                <= usize::MAX,
        ensures
            f@ == Board::blank(
                if rows == 0 { 1 } else { rows as nat },
                if cols == 0 { 1 } else { cols as nat },
            ),
            f@.wf(),
    {
        let rows: usize = if rows == 0 { 1 } else { rows };
        let cols: usize = if cols == 0 { 1 } else { cols };
        let f = Self {
            rows,
            cols,
            grid: vec![Cell::default(); rows * cols],
            closed_empty_cells: rows * cols,
            mine_count: 0,
            flag_count: 0,
        };
        proof {
            assert(f@.cells =~= Board::blank(rows as nat, cols as nat).cells);
            lemma_blank_wf(rows as nat, cols as nat);
        }
        f
    }

    /// Puts the field back to the empty state it was built in, with the
    /// same sides.
    pub fn reset(&mut self)
        ensures
            final(self)@ == Board::blank(old(self)@.rows, old(self)@.cols),
            final(self)@.wf(),
    {
        proof {
            use_type_invariant(&*self);
        }
        assert(self.rows * self.cols == self.grid.len());
        self.grid = vec![Cell::default(); self.rows * self.cols];
        self.closed_empty_cells = self.rows * self.cols;
        self.mine_count = 0;
        self.flag_count = 0;
        proof {
            assert(self@.cells =~= Board::blank(self@.rows, self@.cols).cells);
            lemma_blank_wf(self@.rows, self@.cols);
        }
    }

    pub fn rows(&self) -> (n: usize)
        ensures
            n == self@.rows,
            self@.shaped(),
    {
        proof {
            use_type_invariant(self);
        }
        self.rows
    }

    pub fn cols(&self) -> (n: usize)
        ensures
            n == self@.cols,
            self@.shaped(),
    {
        proof {
            use_type_invariant(self);
        }
        self.cols
    }

    /// Number of cells that are closed and empty; the game is won at zero.
    pub fn closed_empty_cells(&self) -> (n: usize)
        ensures
            n == self@.closed_empty_cells,
    {
        self.closed_empty_cells
    }

    pub fn mine_count(&self) -> (n: usize)
        ensures
            n == self@.mine_count,
    {
        self.mine_count
    }

    pub fn flag_count(&self) -> (n: usize)
        ensures
            n == self@.flag_count,
    {
        self.flag_count
    }

    /// The position `(row, col)` of the cell stored at `idx`.
    fn idx_to_position(&self, idx: usize) -> (pos: (usize, usize))
        requires
            self@.shaped(),
        ensures
            pos.0 == self@.row_of(idx as int),
            pos.1 == self@.col_of(idx as int),
    {
        let row: usize = idx / self.cols;
        let col: usize = idx % self.cols;
        (row, col)
    }

    /// The index at which the cell at `(row, col)` is stored.
    fn position_to_idx(&self, row: usize, col: usize) -> (idx: usize)
        requires
            self@.shaped(),
            self@.in_bounds(row as int, col as int),
        ensures
            idx == self@.index(row as int, col as int),
            idx < self@.cells.len(),
    {
        proof {
            lemma_grid(self@);
            assert(0 <= row * self.cols) by (nonlinear_arith);
            assert(self@.index(row as int, col as int) == row * self.cols + col);
            assert(self@.cells.len() == self.grid.len());
        }
        row * self.cols + col
    }

    /// The cell at `(row, col)`, or `None` where the position is off the
    /// field.
    pub fn get(&self, row: usize, col: usize) -> (res: Option<&Cell>)
        ensures
            self@.shaped(),
            res == if self@.in_bounds(row as int, col as int) {
                Some(&self@.at(row as int, col as int))
            } else {
                None
            },
    {
        proof {
            use_type_invariant(self);
        }
        if row >= self.rows || col >= self.cols {
            return None;
        }
        Some(&self.grid[self.position_to_idx(row, col)])
    }

    /// The cell at `(row, col)`, which must be on the field.
    pub fn get_unchecked(&self, row: usize, col: usize) -> (res: &Cell)
        requires
            self@.in_bounds(row as int, col as int),
        ensures
            *res == self@.at(row as int, col as int),
    {
        proof {
            use_type_invariant(self);
        }
        &self.grid[self.position_to_idx(row, col)]
    }

    /// The cell at `(row, col)` for writing, or `None` where the position is
    /// off the field. What the caller writes is not held to the tallies.
    pub fn get_mut(&mut self, row: usize, col: usize) -> (res: Option<&mut Cell>)
        ensures
            !old(self)@.in_bounds(row as int, col as int) ==> res is None && final(self)@ == old(
                self,
            )@,
            old(self)@.in_bounds(row as int, col as int) ==> res is Some && *res->0 == old(
                self,
            )@.at(row as int, col as int) && final(self)@ == old(self)@.with_cell(
                row as int,
                col as int,
                *final(res->0),
            ),
    {
        proof {
            use_type_invariant(&*self);
        }
        if row >= self.rows || col >= self.cols {
            return None;
        }
        let idx = self.position_to_idx(row, col);
        Some(&mut self.grid[idx])
    }

    /// The cell at `(row, col)`, which must be on the field, for writing.
    /// What the caller writes is not held to the tallies.
    pub fn get_mut_unchecked(&mut self, row: usize, col: usize) -> (res: &mut Cell)
        requires
            old(self)@.in_bounds(row as int, col as int),
        ensures
            *res == old(self)@.at(row as int, col as int),
            final(self)@ == old(self)@.with_cell(row as int, col as int, *final(res)),
    {
        proof {
            use_type_invariant(&*self);
        }
        let idx = self.position_to_idx(row, col);
        &mut self.grid[idx]
    }

    /// The `k`-th position of the three-by-three block around `(row, col)`,
    /// counted row by row, where it is on the field and not the centre.
    fn nbor(&self, row: usize, col: usize, k: usize) -> (res: Option<(usize, usize)>)
        requires
            self@.shaped(),
            self@.in_bounds(row as int, col as int),
            k < 9,
        ensures
            res == if k != 4 && self@.in_bounds(
                nbor_row(row as int, k as int),
                nbor_col(col as int, k as int),
            ) {
                Some(
                    (
                        nbor_row(row as int, k as int) as usize,
                        nbor_col(col as int, k as int) as usize,
                    ),
                )
            } else {
                None
            },
    {
        if k == 4 {
            return None;
        }
        let dr: usize = k / 3;
        let dc: usize = k % 3;
        if (dr == 0 && row == 0) || (dr == 2 && row + 1 >= self.rows) {
            return None;
        }
        if (dc == 0 && col == 0) || (dc == 2 && col + 1 >= self.cols) {
            return None;
        }
        Some((row + dr - 1, col + dc - 1))
    }

    /// Opens the cell at `(row, col)` if it is closed and, where no mine is
    /// around it, goes on to the cells that touch it.
    fn uncover_rec(field: &mut Field, row: usize, col: usize)
        requires
            old(field)@.settled(),
            old(field)@.in_bounds(row as int, col as int) && old(field)@.at(
                row as int,
                col as int,
            ).state == State::Closed ==> old(field)@.at(row as int, col as int).content
                == Content::Empty,
        ensures
            final(field)@.settled(),
            old(field)@.only_opens(final(field)@),
            old(field)@.in_bounds(row as int, col as int) ==> final(field)@.at(
                row as int,
                col as int,
            ).state != State::Closed,
            old(field)@.flood_sound(final(field)@, row as int, col as int),
            old(field)@.flood_spread(final(field)@),
            count_where(final(field)@.cells, closed()) <= count_where(old(field)@.cells, closed()),
        decreases count_where(old(field)@.cells, closed()),
    {
        let ghost b = field@;
        let cell: Cell = match field.get(row, col) {
            Some(c) => *c,
            None => {
                return ;
            },
        };
        // An open or flagged cell stops the flood.
        if !cell.is_closed() {
            return ;
        }
        proof {
            lemma_grid(b);
            lemma_open_settled(b, row as int, col as int);
        }
        field.closed_empty_cells -= 1;
        let current_cell = field.get_mut_unchecked(row, col);
        current_cell.set_state(State::Open);
        assert(field@ == b.opened(row as int, col as int));

        // A cell with a mine around it is the rim of the opened region.
        if cell.neighbouring_bomb_count != 0 {
            return ;
        }
        let mut k: usize = 0;
        while k < 9
            invariant
                k <= 9,
                b == old(field)@,
                b.shaped(),
                b.in_bounds(row as int, col as int),
                b.at(row as int, col as int).state == State::Closed,
                b.at(row as int, col as int).neighbouring_bomb_count == 0,
                field@.settled(),
                b.only_opens(field@),
                b.flood_sound(field@, row as int, col as int),
                b.flood_spread_but(field@, row as int, col as int),
                field@.at(row as int, col as int).state != State::Closed,
                field@.at(row as int, col as int).neighbouring_bomb_count == 0,
                count_where(field@.cells, closed()) < count_where(b.cells, closed()),
                forall|j: int|
                    0 <= j < k && j != 4 && b.in_bounds(
                        #[trigger] nbor_row(row as int, j),
                        nbor_col(col as int, j),
                    ) ==> field@.at(nbor_row(row as int, j), nbor_col(col as int, j)).state
                        != State::Closed,
            decreases 9 - k,
        {
            match field.nbor(row, col, k) {
                Some((nr, nc)) => {
                    let ghost mid = field@;
                    proof {
                        lemma_zero_means_clear(mid, row as int, col as int, nr as int, nc as int);
                    }
                    Self::uncover_rec(field, nr, nc);
                    proof {
                        lemma_flood_step(
                            b,
                            mid,
                            field@,
                            row as int,
                            col as int,
                            nr as int,
                            nc as int,
                        );
                    }
                },
                None => {},
            }
            k += 1;
        }
        proof {
            assert forall|nr: int, nc: int|
                field@.in_bounds(nr, nc) && adjacent(
                    row as int,
                    col as int,
                    nr,
                    nc,
                ) implies (#[trigger] field@.at(nr, nc)).state != State::Closed by {
                lemma_block_covers(row as int, col as int, nr, nc);
            }
            assert(field@.none_closed_around(row as int, col as int));
        }
    }

    /// Reveals the cell at `(row, col)`. `None` where the position is off
    /// the field. `Some(true)` where the cell holds a mine that no flag
    /// protects: the field is then left as it was. `Some(false)` otherwise,
    /// after the cell and all that a flood from it reaches have been opened.
    pub fn uncover_at(&mut self, row: usize, col: usize) -> (res: Option<bool>)
        requires
            old(self)@.wf(),
        ensures
            res == if old(self)@.in_bounds(row as int, col as int) {
                Some(old(self)@.fatal_at(row as int, col as int))
            } else {
                None
            },
            final(self)@ == old(self)@.uncovered(row as int, col as int),
            final(self)@.wf(),
    {
        let cell: Cell = match self.get(row, col) {
            Some(c) => *c,
            None => {
                return None;
            },
        };
        if cell.contains_mine() && !cell.is_flagged() {
            return Some(true);
        }
        let ghost b = self@;
        Self::uncover_rec(self, row, col);
        proof {
            lemma_flood_exact(b, self@, row as int, col as int);
            lemma_only_opens_keeps_flags(b, self@);
        }
        Some(false)
    }

    /// Toggles the flag on the cell at `(row, col)`; `None` where the
    /// position is off the field. A closed cell gets a flag only while
    /// fewer flags are out than there are mines; a flagged cell loses its
    /// flag; an open cell stays as it is.
    pub fn toggle_flag_at(&mut self, row: usize, col: usize) -> (res: Option<()>)
        requires
            old(self)@.wf(),
        ensures
            res is Some <==> old(self)@.in_bounds(row as int, col as int),
            final(self)@ == old(self)@.toggled(row as int, col as int),
            final(self)@.wf(),
    {
        let ghost b = self@;
        proof {
            lemma_toggle_wf(b, row as int, col as int);
        }
        let can_flag = self.flag_count < self.mine_count;
        if row >= self.rows || col >= self.cols {
            return None;
        }
        let idx = self.position_to_idx(row, col);
        let cell_under_cursor = &mut self.grid[idx];
        match cell_under_cursor.state {
            State::Closed => {
                if can_flag {
                    cell_under_cursor.set_state(State::Flagged);
                    self.flag_count += 1;
                }
            },
            State::Flagged => {
                cell_under_cursor.set_state(State::Closed);
                self.flag_count -= 1;
            },
            State::Open => {},
        }
        assert(self@.cells =~= b.toggled(row as int, col as int).cells);
        Some(())
    }

    /// Number of cells that touch `(row, col)` and on which `match_fn`
    /// holds; `None` where the position is off the field.
    fn get_nbor_amt_that_match<F: Fn(&Cell) -> bool>(
        &self,
        row: usize,
        col: usize,
        match_fn: F,
        Ghost(p): Ghost<spec_fn(Cell) -> bool>,
    ) -> (res: Option<usize>)
        requires
            self@.shaped(),
            forall|x: &Cell| #[trigger] match_fn.requires((x,)),
            forall|x: &Cell, y: bool| #[trigger] match_fn.ensures((x,), y) ==> y == p(*x),
        ensures
            match res {
                Some(n) => self@.in_bounds(row as int, col as int) && n == self@.count_around(
                    row as int,
                    col as int,
                    p,
                ),
                None => !self@.in_bounds(row as int, col as int),
            },
    {
        if self.get(row, col).is_none() {
            return None;
        }
        let mut count: usize = 0;
        let mut k: usize = 0;
        while k < 9
            invariant
                k <= 9,
                count <= k,
                self@.shaped(),
                self@.in_bounds(row as int, col as int),
                count == self@.count_upto(row as int, col as int, p, k as nat),
                forall|x: &Cell| #[trigger] match_fn.requires((x,)),
                forall|x: &Cell, y: bool| #[trigger] match_fn.ensures((x,), y) ==> y == p(*x),
            decreases 9 - k,
        {
            match self.nbor(row, col, k) {
                Some((r, c)) => {
                    if match_fn(self.get_unchecked(r, c)) {
                        count += 1;
                    }
                },
                None => {},
            }
            k += 1;
        }
        proof {
            lemma_count_around(self@, row as int, col as int, p);
        }
        Some(count)
    }

    /// Number of flagged cells that touch `(row, col)`; `None` where the
    /// position is off the field.
    pub fn get_flagged_nbors_amt(&self, row: usize, col: usize) -> (res: Option<usize>)
        ensures
            match res {
                Some(n) => self@.in_bounds(row as int, col as int) && n == self@.count_around(
                    row as int,
                    col as int,
                    flagged(),
                ),
                None => !self@.in_bounds(row as int, col as int),
            },
    {
        proof {
            use_type_invariant(&*self);
        }
        self.get_nbor_amt_that_match(row, col, Cell::is_flagged, Ghost(flagged()))
    }

    /// Number of cells that touch `(row, col)` and are not open, flagged or
    /// not; `None` where the position is off the field.
    pub fn get_non_open_nbors_amt(&self, row: usize, col: usize) -> (res: Option<usize>)
        ensures
            match res {
                Some(n) => self@.in_bounds(row as int, col as int) && n == self@.count_around(
                    row as int,
                    col as int,
                    non_open(),
                ),
                None => !self@.in_bounds(row as int, col as int),
            },
    {
        proof {
            use_type_invariant(&*self);
        }
        self.get_nbor_amt_that_match(row, col, is_not_open, Ghost(non_open()))
    }

    /// Writes into every cell the number of mines that touch it.
    fn recompute_neighbouroing_counts(&mut self)
        requires
            old(self)@.shaped(),
        ensures
            old(self)@.same_layout(final(self)@),
            final(self)@.mine_count == old(self)@.mine_count,
            final(self)@.flag_count == old(self)@.flag_count,
            final(self)@.closed_empty_cells == old(self)@.closed_empty_cells,
            final(self)@.counts_true(),
    {
        let ghost b = self@;
        assert(self.rows * self.cols == self.grid.len());
        let n: usize = self.rows * self.cols;
        let mut idx: usize = 0;
        while idx < n
            invariant
                idx <= n,
                n == b.cells.len(),
                b.shaped(),
                b.same_layout(self@),
                self@.mine_count == b.mine_count,
                self@.flag_count == b.flag_count,
                self@.closed_empty_cells == b.closed_empty_cells,
                forall|j: int|
                    0 <= j < idx ==> (#[trigger] self@.cells[j]).neighbouring_bomb_count
                        == b.mines_around(b.row_of(j), b.col_of(j)),
            decreases n - idx,
        {
            proof {
                lemma_grid(self@);
                lemma_same_layout_mines(b, self@);
            }
            let (row, col) = self.idx_to_position(idx);
            let count: usize = match self.get_nbor_amt_that_match(
                row,
                col,
                Cell::contains_mine,
                Ghost(mined()),
            ) {
                Some(c) => c,
                None => 0,
            };
            assert(count == self@.mines_around(row as int, col as int));
            let mut cell: Cell = self.grid[idx];
            cell.neighbouring_bomb_count = count;
            self.grid[idx] = cell;
            idx += 1;
        }
        proof {
            lemma_grid(self@);
            lemma_same_layout_mines(b, self@);
            assert forall|r: int, c: int| self@.in_bounds(r, c) implies #[trigger] self@.count_true_at(
                r,
                c,
            ) by {
                let j = self@.index(r, c);
                assert(self@.cells[j] == self@.at(r, c));
                assert(b.row_of(j) == r && b.col_of(j) == c);
                assert(self@.mines_around(r, c) == b.mines_around(r, c));
            }
        }
    }

    /// Lays the mines from one draw per cell, in the order of the grid: a
    /// cell gets a mine where its draw is not above the percentage (99 at
    /// most) and the cell lies outside the three-by-three safe zone around
    /// `(current_row, current_col)`. Every cell is closed again, the mine
    /// tally, the tally of cells left to open and the neighbour counts are
    /// set anew; the flag tally stays.
    pub fn lay_mines(
        &mut self,
        draws: &Vec<u8>,
        mine_percentage: u8,
        current_row: usize,
        current_col: usize,
    )
        requires
            draws@.len() == old(self)@.cells.len(),
        ensures
            final(self)@.rows == old(self)@.rows,
            final(self)@.cols == old(self)@.cols,
            final(self)@.flag_count == old(self)@.flag_count,
            final(self)@.laid_from(draws@, mine_percentage, current_row as int, current_col as int),
            final(self)@.fresh_and_safe(current_row as int, current_col as int),
            final(self)@.settled(),
            old(self)@.flag_count == 0 ==> final(self)@.wf(),
    {
        proof {
            use_type_invariant(&*self);
        }
        let ghost b = self@;
        let mine_percentage: u8 = if mine_percentage >= 100 { 99 } else { mine_percentage };
        let mut closed_empty_cells: usize = 0;
        let mut mine_count: usize = 0;
        assert(self.rows * self.cols == self.grid.len());
        let n: usize = self.rows * self.cols;
        let mut idx: usize = 0;
        while idx < n
            invariant
                idx <= n,
                n == self@.cells.len(),
                draws@.len() == n,
                mine_percentage <= 99,
                self@.shaped(),
                self@.rows == b.rows,
                self@.cols == b.cols,
                self@.flag_count == b.flag_count,
                mine_count <= idx,
                closed_empty_cells <= idx,
                mine_count == count_where(self@.cells.take(idx as int), mined()),
                closed_empty_cells == count_where(self@.cells.take(idx as int), unopened_empty()),
                forall|i: int|
                    0 <= i < idx ==> (#[trigger] self@.cells[i]).state == State::Closed && (
                    self@.cells[i].content == Content::Mine <==> draws@[i] <= mine_percentage
                        && !in_safe_zone(
                        self@.row_of(i),
                        self@.col_of(i),
                        current_row as int,
                        current_col as int,
                    )),
            decreases n - idx,
        {
            let ghost before = self@;
            let (row, col) = self.idx_to_position(idx);
            let cell_content = if draws[idx] <= mine_percentage {
                if within_one(row, current_row) && within_one(col, current_col) {
                    closed_empty_cells += 1;
                    Content::Empty
                } else {
                    mine_count += 1;
                    Content::Mine
                }
            } else {
                closed_empty_cells += 1;
                Content::Empty
            };
            self.grid[idx] = Cell {
                state: State::Closed,
                content: cell_content,
                neighbouring_bomb_count: 0,
            };
            proof {
                assert(self@.cells.take(idx as int) =~= before.cells.take(idx as int));
                lemma_count_take(self@.cells, idx as int, mined());
                lemma_count_take(self@.cells, idx as int, unopened_empty());
            }
            idx += 1;
        }
        assert(self@.cells.take(n as int) =~= self@.cells);
        self.closed_empty_cells = closed_empty_cells;
        self.mine_count = mine_count;
        let ghost laid = self@;
        self.recompute_neighbouroing_counts();
        proof {
            lemma_count_same(laid.cells, self@.cells, mined());
            lemma_count_same(laid.cells, self@.cells, unopened_empty());
            lemma_laid_is_safe(
                self@,
                draws@,
                mine_percentage,
                current_row as int,
                current_col as int,
            );
            lemma_count_bounds(self@.cells, flagged());
            lemma_count_bounds(self@.cells, mined());
        }
    }

    /// Lays mines at random, each cell on its own with the chance that
    /// `mine_percentage` gives (99 at most), but for the three-by-three
    /// safe zone around `(current_row, current_col)`, which stays empty.
    /// Every cell is closed again and the tallies but that of the flags are
    /// set anew: call it on a field without flags.
    pub fn randomize(&mut self, mine_percentage: u8, current_row: usize, current_col: usize)
        ensures
            final(self)@.rows == old(self)@.rows,
            final(self)@.cols == old(self)@.cols,
            final(self)@.flag_count == old(self)@.flag_count,
            exists|draws: Seq<u8>|
                (forall|i: int| 0 <= i < draws.len() ==> 1 <= #[trigger] draws[i] <= 100)
                    && #[trigger] final(self)@.laid_from(
                    draws,
                    mine_percentage,
                    current_row as int,
                    current_col as int,
                ),
            final(self)@.fresh_and_safe(current_row as int, current_col as int),
            final(self)@.settled(),
            old(self)@.flag_count == 0 ==> final(self)@.wf(),
    {
        proof {
            use_type_invariant(&*self);
        }
        assert(self.rows * self.cols == self.grid.len());
        let n: usize = self.rows * self.cols;
        let mut rng = rand::thread_rng();
        let mut draws: Vec<u8> = Vec::new();
        while draws.len() < n
            invariant
                draws@.len() <= n,
                forall|i: int| 0 <= i < draws@.len() ==> 1 <= #[trigger] draws@[i] <= 100,
            decreases n - draws@.len(),
        {
            let drawn = draw_between(&mut rng, 1, 100);
            draws.push(drawn);
        }
        self.lay_mines(&draws, mine_percentage, current_row, current_col);
    }

    /// Reveals every closed cell that touches `(row, col)`, in the order of
    /// the block around it, and stops at the first mine that goes off.
    /// `None` where the position is off the field, `Some(true)` where a mine
    /// went off, `Some(false)` otherwise.
    pub fn uncover_around_cell_at(&mut self, row: usize, col: usize) -> (res: Option<bool>)
        requires
            old(self)@.wf(),
        ensures
            res == if old(self)@.in_bounds(row as int, col as int) {
                Some(old(self)@.uncovered_around(row as int, col as int).1)
            } else {
                None
            },
            final(self)@ == old(self)@.uncovered_around(row as int, col as int).0,
            final(self)@.wf(),
            final(self)@.rows == old(self)@.rows,
            final(self)@.cols == old(self)@.cols,
    {
        if self.get(row, col).is_none() {
            return None;
        }
        let ghost b = self@;
        let mut k: usize = 0;
        while k < 9
            invariant
                k <= 9,
                b == old(self)@,
                self@.wf(),
                self@.rows == b.rows,
                self@.cols == b.cols,
                b.in_bounds(row as int, col as int),
                self@.uncovered_around_from(row as int, col as int, k as nat)
                    == b.uncovered_around_from(row as int, col as int, 0),
            decreases 9 - k,
        {
            match self.nbor(row, col, k) {
                Some((r, c)) => {
                    if self.get_unchecked(r, c).is_closed() {
                        match self.uncover_at(r, c) {
                            Some(true) => {
                                return Some(true);
                            },
                            _ => {},
                        }
                    }
                },
                None => {},
            }
            k += 1;
        }
        Some(false)
    }

    /// Toggles the flag on every closed cell that touches `(row, col)`, in
    /// the order of the block around it: each gets a flag while fewer flags
    /// are out than there are mines. `false` where the position is off the
    /// field, `true` otherwise.
    pub fn unflag_all_closed_around(&mut self, row: usize, col: usize) -> (res: bool)
        requires
            old(self)@.wf(),
        ensures
            res == old(self)@.in_bounds(row as int, col as int),
            final(self)@ == old(self)@.toggled_around(row as int, col as int),
            final(self)@.wf(),
            final(self)@.rows == old(self)@.rows,
            final(self)@.cols == old(self)@.cols,
    {
        if self.get(row, col).is_none() {
            return false;
        }
        let ghost b = self@;
        let mut k: usize = 0;
        while k < 9
            invariant
                k <= 9,
                b == old(self)@,
                self@.wf(),
                self@.rows == b.rows,
                self@.cols == b.cols,
                b.in_bounds(row as int, col as int),
                self@.toggled_around_from(row as int, col as int, k as nat)
                    == b.toggled_around_from(row as int, col as int, 0),
            decreases 9 - k,
        {
            match self.nbor(row, col, k) {
                Some((r, c)) => {
                    if self.get_unchecked(r, c).is_closed() {
                        self.toggle_flag_at(r, c);
                    }
                },
                None => {},
            }
            k += 1;
        }
        true
    }
}

} // verus!
