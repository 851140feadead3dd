//! A single grid position: its visibility, its content and the number of
//! mines around it.

use vstd::prelude::*;

verus! {

/// What the player sees of a cell.
#[derive(Copy, Clone, Debug, PartialEq, Eq, Structural)]
pub enum State {
    Open,
    Closed,
    Flagged,
}

impl Default for State {
    fn default() -> (s: Self)
        ensures
            s == State::Closed,
    {
        State::Closed
    }
}

/// What a cell holds.
#[derive(Copy, Clone, Debug, PartialEq, Eq, Structural)]
pub enum Content {
    Mine,
    Empty,
}

impl Default for Content {
    fn default() -> (c: Self)
        ensures
            c == Content::Empty,
    {
        Content::Empty
    }
}

/// One position of the grid.
#[derive(Copy, Clone, Debug, PartialEq, Eq, Structural)]
pub struct Cell {
    pub state: State,
    pub content: Content,
    /// Number of mines among the (up to eight) adjacent cells.
    pub neighbouring_bomb_count: usize,
}

impl Default for Cell {
    fn default() -> (c: Self)
        ensures
            c == Cell::blank(),
    {
        Cell { state: State::Closed, content: Content::Empty, neighbouring_bomb_count: 0 }
    }
}

impl Cell {
    /// The cell of a freshly built board: closed, empty, no mines around.
    pub open spec fn blank() -> Cell {
        Cell { state: State::Closed, content: Content::Empty, neighbouring_bomb_count: 0 }
    }

    /// This cell with another state and everything else kept.
    pub open spec fn with_state(self, s: State) -> Cell {
        Cell { state: s, ..self }
    }

    pub open spec fn spec_contains_mine(&self) -> bool {
        self.content == Content::Mine
    }

    pub open spec fn spec_is_empty(&self) -> bool {
        self.content == Content::Empty
    }

    pub open spec fn spec_is_closed(&self) -> bool {
        self.state == State::Closed
    }

    pub open spec fn spec_is_open(&self) -> bool {
        self.state == State::Open
    }

    pub open spec fn spec_is_flagged(&self) -> bool {
        self.state == State::Flagged
    }

    pub fn set_state(&mut self, new_state: State)
        ensures
            *final(self) == old(self).with_state(new_state),
    {
        self.state = new_state;
    }

    pub fn contains_mine(&self) -> (b: bool)
        ensures
            b == self.spec_contains_mine(),
    {
        self.content == Content::Mine
    }

    pub fn is_empty(&self) -> (b: bool)
        ensures
            b == self.spec_is_empty(),
    {
        self.content == Content::Empty
    }

    pub fn is_closed(&self) -> (b: bool)
        ensures
            b == self.spec_is_closed(),
    {
        self.state == State::Closed
    }

    pub fn is_open(&self) -> (b: bool)
        ensures
            b == self.spec_is_open(),
    {
        self.state == State::Open
    }

    pub fn is_flagged(&self) -> (b: bool)
        ensures
            b == self.spec_is_flagged(),
    {
        self.state == State::Flagged
    }
}

} // verus!
