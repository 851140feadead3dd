//! Flags: what toggling one does to the tallies.

use vstd::prelude::*;
use crate::board::{flagged, lemma_count_update, lemma_grid, unopened_empty, Board};
use crate::cell::State;
use crate::flood::lemma_restate_keeps_mines;

verus! {

/// Giving a cell another state leaves every stored neighbour count true.
pub proof fn lemma_restate_keeps_counts(b: Board, r: int, c: int, s: State)
    requires
        b.shaped(),
        b.in_bounds(r, c),
        b.counts_true(),
    ensures
        b.with_cell(r, c, b.at(r, c).with_state(s)).counts_true(),
{
    let a = b.with_cell(r, c, b.at(r, c).with_state(s));
    lemma_restate_keeps_mines(b, r, c, s);
    assert forall|x: int, y: int| a.in_bounds(x, y) implies #[trigger] a.count_true_at(x, y) by {
        assert(b.count_true_at(x, y));
        assert(a.mines_around(x, y) == b.mines_around(x, y));
    }
}

/// Moving a cell between closed and flagged, whatever the flag tally
/// becomes, leaves a settled board settled.
pub proof fn lemma_reflag_settled(b: Board, r: int, c: int, s: State, flags: nat)
    requires
        b.settled(),
        b.in_bounds(r, c),
        b.at(r, c).state != State::Open,
        s != State::Open,
    ensures
        (Board {
            cells: b.cells.update(b.index(r, c), b.at(r, c).with_state(s)),
            flag_count: flags,
            ..b
        }).settled(),
{
    let w = b.with_cell(r, c, b.at(r, c).with_state(s));
    let a = Board { flag_count: flags, ..w };
    lemma_grid(b);
    lemma_restate_keeps_mines(b, r, c, s);
    lemma_restate_keeps_counts(b, r, c, s);
    lemma_count_update(b.cells, b.index(r, c), b.at(r, c).with_state(s), unopened_empty());
    assert forall|x: int, y: int| a.in_bounds(x, y) implies #[trigger] a.count_true_at(x, y) by {
        assert(w.count_true_at(x, y));
        assert(a.at(x, y) == w.at(x, y));
        assert(a.mines_around(x, y) == w.mines_around(x, y));
    }
}

/// Toggling a flag keeps a consistent board consistent, and a flag that is
/// taken back was counted.
pub proof fn lemma_toggle_wf(b: Board, r: int, c: int)
    requires
        b.wf(),
    ensures
        b.toggled(r, c).wf(),
        b.in_bounds(r, c) && b.at(r, c).state == State::Flagged ==> b.flag_count >= 1,
{
    if b.in_bounds(r, c) {
        lemma_grid(b);
        let i = b.index(r, c);
        let old_cell = b.at(r, c);
        if old_cell.state == State::Closed && b.flag_count < b.mine_count {
            lemma_reflag_settled(b, r, c, State::Flagged, b.flag_count + 1);
            lemma_count_update(b.cells, i, old_cell.with_state(State::Flagged), flagged());
        } else if old_cell.state == State::Flagged {
            lemma_count_update(b.cells, i, old_cell.with_state(State::Closed), flagged());
            lemma_reflag_settled(b, r, c, State::Closed, (b.flag_count - 1) as nat);
        }
    }
}

} // verus!
