//! How a cell is drawn: its colours, its sign, and the cursor around it.

use vstd::prelude::*;
use crate::cell::{Cell, Content, State};
use crate::colors::{bg_sequence, fg_sequence, CBg, CFg, Palette};
use crate::text::{append, append_char, append_decimal, decimal};

verus! {

/// What stands left and right of a cell: brackets under the cursor, blanks
/// elsewhere.
pub open spec fn brackets(with_cursor: bool) -> (char, char) {
    if with_cursor {
        ('[', ']')
    } else {
        (' ', ' ')
    }
}

/// A cell as drawn: the background, the left bracket in the cursor's
/// colour, the sign in the foreground, the right bracket in the cursor's
/// colour.
pub open spec fn framed(
    bg: CBg,
    fg: CFg,
    sign: Seq<char>,
    palette: Palette,
    with_cursor: bool,
) -> Seq<char> {
    bg_sequence(bg.0) + fg_sequence(palette.cursor_fg.0) + seq![brackets(with_cursor).0]
        + fg_sequence(fg.0) + sign + fg_sequence(palette.cursor_fg.0) + seq![
        brackets(with_cursor).1,
    ]
}

impl Cell {
    /// The number of mines around the cell, or a blank where there is none.
    pub open spec fn number_sign(self) -> Seq<char> {
        if self.neighbouring_bomb_count != 0 {
            decimal(self.neighbouring_bomb_count as nat)
        } else {
            seq![' ']
        }
    }

    /// The sign of the cell during play.
    pub open spec fn sign(self) -> Seq<char> {
        match self.state {
            State::Open => match self.content {
                Content::Mine => seq!['*'],
                Content::Empty => self.number_sign(),
            },
            State::Closed => seq!['.'],
            State::Flagged => seq!['F'],
        }
    }

    /// The background of the cell during play.
    pub open spec fn bg(self, palette: Palette) -> CBg {
        match self.state {
            State::Open => match self.content {
                Content::Mine => palette.mine.bg,
                Content::Empty => palette.open_bg,
            },
            State::Closed => palette.closed.bg,
            State::Flagged => palette.flag.bg,
        }
    }

    /// The foreground of the cell during play.
    pub open spec fn fg(self, palette: Palette) -> CFg {
        match self.state {
            State::Open => match self.content {
                Content::Mine => palette.mine.fg,
                Content::Empty => palette.neighbour_count_to_fg_color[
                    self.neighbouring_bomb_count as int
                ],
            },
            State::Closed => palette.closed.fg,
            State::Flagged => palette.flag.fg,
        }
    }

    /// The cell as drawn during play.
    pub open spec fn drawn(self, palette: Palette, with_cursor: bool) -> Seq<char> {
        framed(self.bg(palette), self.fg(palette), self.sign(), palette, with_cursor)
    }

    /// The sign of the cell once the game is lost: every cell shows what it
    /// holds, a flag on an empty cell the number of mines around it.
    pub open spec fn sign_lost(self) -> Seq<char> {
        match self.content {
            Content::Mine => seq!['*'],
            Content::Empty => if self.state == State::Flagged {
                decimal(self.neighbouring_bomb_count as nat)
            } else {
                self.number_sign()
            },
        }
    }

    /// The background of the cell once the game is lost.
    pub open spec fn bg_lost(self, palette: Palette) -> CBg {
        if self.state == State::Flagged {
            match self.content {
                Content::Mine => palette.correct_flag.bg,
                Content::Empty => palette.wrong_flag.bg,
            }
        } else {
            match self.content {
                Content::Mine => palette.mine.bg,
                Content::Empty => palette.open_bg,
            }
        }
    }

    /// The foreground of the cell once the game is lost.
    pub open spec fn fg_lost(self, palette: Palette) -> CFg {
        if self.state == State::Flagged {
            match self.content {
                Content::Mine => palette.correct_flag.fg,
                Content::Empty => palette.wrong_flag.fg,
            }
        } else {
            match self.content {
                Content::Mine => palette.mine.fg,
                Content::Empty => palette.neighbour_count_to_fg_color[
                    self.neighbouring_bomb_count as int
                ],
            }
        }
    }

    /// The cell as drawn once the game is lost.
    pub open spec fn drawn_lost(self, palette: Palette, with_cursor: bool) -> Seq<char> {
        framed(self.bg_lost(palette), self.fg_lost(palette), self.sign_lost(), palette, with_cursor)
    }

    /// The count has a colour in the palette wherever drawing the cell
    /// during play looks one up.
    pub open spec fn drawable(self) -> bool {
        self.state == State::Open && self.content == Content::Empty
            ==> self.neighbouring_bomb_count <= 8
    }

    /// The count has a colour in the palette wherever drawing the cell of a
    /// lost game looks one up.
    pub open spec fn drawable_lost(self) -> bool {
        self.state != State::Flagged && self.content == Content::Empty
            ==> self.neighbouring_bomb_count <= 8
    }

    /// Appends the number of mines around the cell, or a blank.
    fn append_number(&self, out: &mut String)
        ensures
            final(out)@ == old(out)@ + self.number_sign(),
    {
        if self.neighbouring_bomb_count != 0 {
            append_decimal(out, self.neighbouring_bomb_count);
        } else {
            append_char(out, ' ');
        }
    }

    /// The cell as text for the terminal during play. The colours are not
    /// put back at the end.
    pub fn to_string_with_palette(&self, palette: &Palette, with_cursor: bool) -> (s: String)
        requires
            self.drawable(),
        ensures
            s@ == self.drawn(*palette, with_cursor),
    {
        let sep = if with_cursor { ('[', ']') } else { (' ', ' ') };
        let cursor = palette.cursor_fg.code();
        let mut repr = String::new();
        let bg: CBg;
        let fg: CFg;
        match self.state {
            State::Open => match self.content {
                Content::Mine => {
                    bg = palette.mine.bg;
                    fg = palette.mine.fg;
                    append_char(&mut repr, '*');
                },
                Content::Empty => {
                    bg = palette.open_bg;
                    fg = palette.neighbour_count_to_fg_color[self.neighbouring_bomb_count];
                    self.append_number(&mut repr);
                },
            },
            State::Closed => {
                bg = palette.closed.bg;
                fg = palette.closed.fg;
                append_char(&mut repr, '.');
            },
            State::Flagged => {
                bg = palette.flag.bg;
                fg = palette.flag.fg;
                append_char(&mut repr, 'F');
            },
        }
        assert(repr@ =~= self.sign());
        frame(bg, fg, &repr, &cursor, sep, Ghost(*palette), Ghost(with_cursor))
    }

    /// The cell as text for the terminal once the game is lost: flags on
    /// mines and flags on empty cells are told apart. The colours are not
    /// put back at the end.
    pub fn to_string_with_palette_lost(&self, palette: &Palette, with_cursor: bool) -> (s: String)
        requires
            self.drawable_lost(),
        ensures
            s@ == self.drawn_lost(*palette, with_cursor),
    {
        let sep = if with_cursor { ('[', ']') } else { (' ', ' ') };
        let cursor = palette.cursor_fg.code();
        let mut repr = String::new();
        let bg: CBg;
        let fg: CFg;
        match (self.state, self.content) {
            (State::Flagged, Content::Mine) => {
                bg = palette.correct_flag.bg;
                fg = palette.correct_flag.fg;
                append_char(&mut repr, '*');
            },
            (State::Flagged, Content::Empty) => {
                bg = palette.wrong_flag.bg;
                fg = palette.wrong_flag.fg;
                append_decimal(&mut repr, self.neighbouring_bomb_count);
            },
            (_, Content::Mine) => {
                bg = palette.mine.bg;
                fg = palette.mine.fg;
                append_char(&mut repr, '*');
            },
            (_, Content::Empty) => {
                bg = palette.open_bg;
                fg = palette.neighbour_count_to_fg_color[self.neighbouring_bomb_count];
                self.append_number(&mut repr);
            },
        }
        assert(repr@ =~= self.sign_lost());
        frame(bg, fg, &repr, &cursor, sep, Ghost(*palette), Ghost(with_cursor))
    }
}

/// Puts the colours, the brackets and the sign of a cell together.
fn frame(
    bg: CBg,
    fg: CFg,
    repr: &String,
    cursor: &String,
    sep: (char, char),
    Ghost(palette): Ghost<Palette>,
    Ghost(with_cursor): Ghost<bool>,
) -> (s: String)
    requires
        cursor@ == fg_sequence(palette.cursor_fg.0),
        sep == brackets(with_cursor),
    ensures
        s@ == framed(bg, fg, repr@, palette, with_cursor),
{
    let mut s = bg.code();
    append(&mut s, cursor.as_str());
    append_char(&mut s, sep.0);
    let fg_code = fg.code();
    append(&mut s, fg_code.as_str());
    append(&mut s, repr.as_str());
    append(&mut s, cursor.as_str());
    append_char(&mut s, sep.1);
    assert(s@ =~= framed(bg, fg, repr@, palette, with_cursor));
    s
}

} // verus!
