//! Colours and the palette a field is drawn with.

use vstd::prelude::*;
use crate::text::decimal;

verus! {

/// A truecolor value: red, green, blue.
#[derive(Copy, Clone, Debug, PartialEq, Eq, Structural)]
pub struct Rgb(pub u8, pub u8, pub u8);

/// The escape sequence `ESC [`.
pub open spec fn csi() -> Seq<char> {
    seq!['\x1b', '[']
}

/// The three channels of a colour in decimal, with `;` between them.
pub open spec fn channels(clr: Rgb) -> Seq<char> {
    decimal(clr.0 as nat) + seq![';'] + decimal(clr.1 as nat) + seq![';'] + decimal(clr.2 as nat)
}

/// The terminal sequence that sets the foreground colour.
pub open spec fn fg_sequence(clr: Rgb) -> Seq<char> {
    csi() + seq!['3', '8', ';', '2', ';'] + channels(clr) + seq!['m']
}

/// The terminal sequence that sets the background colour.
pub open spec fn bg_sequence(clr: Rgb) -> Seq<char> {
    csi() + seq!['4', '8', ';', '2', ';'] + channels(clr) + seq!['m']
}

/// The terminal sequence that puts the foreground colour back.
pub open spec fn fg_reset_sequence() -> Seq<char> {
    csi() + seq!['3', '9', 'm']
}

/// The terminal sequence that puts the background colour back.
pub open spec fn bg_reset_sequence() -> Seq<char> {
    csi() + seq!['4', '9', 'm']
}

/// `termion::color::Rgb::fg_string`: `ESC [ 38;2;` then the three channels
/// in decimal with `;` between them, then `m`.
#[verifier::external_body]
pub(crate) fn fg_string(clr: Rgb) -> (s: String)
    ensures
        s@ == fg_sequence(clr),
{
    termion::color::Rgb(clr.0, clr.1, clr.2).fg_string()
}

/// `termion::color::Rgb::bg_string`: `ESC [ 48;2;` then the three channels
/// in decimal with `;` between them, then `m`.
#[verifier::external_body]
pub(crate) fn bg_string(clr: Rgb) -> (s: String)
    ensures
        s@ == bg_sequence(clr),
{
    termion::color::Rgb(clr.0, clr.1, clr.2).bg_string()
}

/// `termion::color::Reset::fg_str`: the constant `ESC [ 39m`.
#[verifier::external_body]
pub(crate) fn fg_reset_str() -> (s: &'static str)
    ensures
        s@ == fg_reset_sequence(),
{
    termion::color::Reset.fg_str()
}

/// `termion::color::Reset::bg_str`: the constant `ESC [ 49m`.
#[verifier::external_body]
pub(crate) fn bg_reset_str() -> (s: &'static str)
    ensures
        s@ == bg_reset_sequence(),
{
    termion::color::Reset.bg_str()
}

/// A foreground colour.
#[derive(Copy, Clone, Debug, PartialEq, Eq, Structural)]
pub struct CFg(pub Rgb);

impl CFg {
    pub fn new(clr: Rgb) -> (c: Self)
        ensures
            c == CFg(clr),
    {
        CFg(clr)
    }

    /// The terminal sequence that sets this colour.
    pub fn code(&self) -> (s: String)
        ensures
            s@ == fg_sequence(self.0),
    {
        fg_string(self.0)
    }
}

/// A background colour.
#[derive(Copy, Clone, Debug, PartialEq, Eq, Structural)]
pub struct CBg(pub Rgb);

impl CBg {
    pub fn new(clr: Rgb) -> (c: Self)
        ensures
            c == CBg(clr),
    {
        CBg(clr)
    }

    /// The terminal sequence that sets this colour.
    pub fn code(&self) -> (s: String)
        ensures
            s@ == bg_sequence(self.0),
    {
        bg_string(self.0)
    }
}

/// The two colours of one kind of cell.
#[derive(Copy, Clone, Debug, PartialEq, Eq, Structural)]
pub struct PaletteElement {
    pub fg: CFg,
    pub bg: CBg,
}

impl PaletteElement {
    pub fn new(bg: Rgb, fg: Rgb) -> (e: Self)
        ensures
            e == (PaletteElement { fg: CFg(fg), bg: CBg(bg) }),
    {
        Self { fg: CFg(fg), bg: CBg(bg) }
    }
}

/// The colours a field is drawn with.
#[derive(Debug)]
pub struct Palette {
    pub closed: PaletteElement,
    pub open_bg: CBg,
    /// The colour of the number on an open cell, by that number.
    pub neighbour_count_to_fg_color: [CFg; 9],
    pub mine: PaletteElement,
    pub flag: PaletteElement,
    pub cursor_fg: CFg,
    pub correct_flag: PaletteElement,
    pub wrong_flag: PaletteElement,
}

/// The palette is that of the classic game.
pub open spec fn is_og_palette(p: Palette) -> bool {
    &&& p.closed == (PaletteElement { fg: CFg(Rgb(30, 30, 30)), bg: CBg(Rgb(30, 30, 30)) })
    &&& p.open_bg == CBg(Rgb(138, 138, 138))
    &&& p.neighbour_count_to_fg_color@ == seq![
        CFg(Rgb(138, 138, 138)),
        CFg(Rgb(0, 0, 255)),
        CFg(Rgb(0, 130, 0)),
        CFg(Rgb(200, 0, 0)),
        CFg(Rgb(0, 0, 131)),
        CFg(Rgb(132, 0, 1)),
        CFg(Rgb(0, 130, 132)),
        CFg(Rgb(132, 0, 132)),
        CFg(Rgb(117, 117, 117)),
    ]
    &&& p.mine == (PaletteElement { fg: CFg(Rgb(255, 255, 255)), bg: CBg(Rgb(180, 0, 0)) })
    &&& p.flag == (PaletteElement { fg: CFg(Rgb(255, 255, 255)), bg: CBg(Rgb(40, 100, 40)) })
    &&& p.cursor_fg == CFg(Rgb(255, 255, 255))
    &&& p.correct_flag == (PaletteElement { fg: CFg(Rgb(255, 255, 255)), bg: CBg(Rgb(0, 255, 0)) })
    &&& p.wrong_flag == (PaletteElement { fg: CFg(Rgb(255, 255, 255)), bg: CBg(Rgb(255, 0, 0)) })
}

/// The palette of the classic game.
pub fn og_palette() -> (p: Palette)
    ensures
        is_og_palette(p),
{
    let p = Palette {
        closed: PaletteElement::new(Rgb(30, 30, 30), Rgb(30, 30, 30)),
        open_bg: CBg::new(Rgb(138, 138, 138)),
        neighbour_count_to_fg_color: [
            CFg::new(Rgb(138, 138, 138)),
            CFg::new(Rgb(0, 0, 255)),
            CFg::new(Rgb(0, 130, 0)),
            CFg::new(Rgb(200, 0, 0)),
            CFg::new(Rgb(0, 0, 131)),
            CFg::new(Rgb(132, 0, 1)),
            CFg::new(Rgb(0, 130, 132)),
            CFg::new(Rgb(132, 0, 132)),
            CFg::new(Rgb(117, 117, 117)),
        ],
        mine: PaletteElement::new(Rgb(180, 0, 0), Rgb(255, 255, 255)),
        flag: PaletteElement::new(Rgb(40, 100, 40), Rgb(255, 255, 255)),
        cursor_fg: CFg::new(Rgb(255, 255, 255)),
        correct_flag: PaletteElement::new(Rgb(0, 255, 0), Rgb(255, 255, 255)),
        wrong_flag: PaletteElement::new(Rgb(255, 0, 0), Rgb(255, 255, 255)),
    };
    assert(p.neighbour_count_to_fg_color@ =~= seq![
        CFg(Rgb(138, 138, 138)),
        CFg(Rgb(0, 0, 255)),
        CFg(Rgb(0, 130, 0)),
        CFg(Rgb(200, 0, 0)),
        CFg(Rgb(0, 0, 131)),
        CFg(Rgb(132, 0, 1)),
        CFg(Rgb(0, 130, 132)),
        CFg(Rgb(132, 0, 132)),
        CFg(Rgb(117, 117, 117)),
    ]);
    p
}

/// The palette is that of this game: dark cells, bright numbers.
pub open spec fn is_mnswpr_palette(p: Palette) -> bool {
    &&& p.closed == (PaletteElement { fg: CFg(Rgb(255, 255, 255)), bg: CBg(Rgb(30, 30, 30)) })
    &&& p.open_bg == CBg(Rgb(30, 30, 30))
    &&& p.neighbour_count_to_fg_color@ == seq![
        CFg(Rgb(30, 30, 30)),
        CFg(Rgb(70, 100, 255)),
        CFg(Rgb(0, 130, 0)),
        CFg(Rgb(200, 0, 0)),
        CFg(Rgb(200, 30, 200)),
        CFg(Rgb(132, 0, 1)),
        CFg(Rgb(0, 130, 132)),
        CFg(Rgb(132, 0, 132)),
        CFg(Rgb(117, 117, 117)),
    ]
    &&& p.mine == (PaletteElement { fg: CFg(Rgb(255, 255, 255)), bg: CBg(Rgb(180, 0, 0)) })
    &&& p.flag == (PaletteElement { fg: CFg(Rgb(255, 255, 255)), bg: CBg(Rgb(40, 100, 40)) })
    &&& p.cursor_fg == CFg(Rgb(255, 255, 255))
    &&& p.correct_flag == (PaletteElement { fg: CFg(Rgb(255, 255, 255)), bg: CBg(Rgb(0, 255, 0)) })
    &&& p.wrong_flag == (PaletteElement { fg: CFg(Rgb(255, 255, 255)), bg: CBg(Rgb(255, 0, 0)) })
}

/// The palette of this game: dark cells, bright numbers.
pub fn mnswpr_palette() -> (p: Palette)
    ensures
        is_mnswpr_palette(p),
{
    let p = Palette {
        closed: PaletteElement::new(Rgb(30, 30, 30), Rgb(255, 255, 255)),
        open_bg: CBg::new(Rgb(30, 30, 30)),
        neighbour_count_to_fg_color: [
            CFg::new(Rgb(30, 30, 30)),
            CFg::new(Rgb(70, 100, 255)),
            CFg::new(Rgb(0, 130, 0)),
            CFg::new(Rgb(200, 0, 0)),
            CFg::new(Rgb(200, 30, 200)),
            CFg::new(Rgb(132, 0, 1)),
            CFg::new(Rgb(0, 130, 132)),
            CFg::new(Rgb(132, 0, 132)),
            CFg::new(Rgb(117, 117, 117)),
        ],
        mine: PaletteElement::new(Rgb(180, 0, 0), Rgb(255, 255, 255)),
        flag: PaletteElement::new(Rgb(40, 100, 40), Rgb(255, 255, 255)),
        cursor_fg: CFg::new(Rgb(255, 255, 255)),
        correct_flag: PaletteElement::new(Rgb(0, 255, 0), Rgb(255, 255, 255)),
        wrong_flag: PaletteElement::new(Rgb(255, 0, 0), Rgb(255, 255, 255)),
    };
    assert(p.neighbour_count_to_fg_color@ =~= seq![
        CFg(Rgb(30, 30, 30)),
        CFg(Rgb(70, 100, 255)),
        CFg(Rgb(0, 130, 0)),
        CFg(Rgb(200, 0, 0)),
        CFg(Rgb(200, 30, 200)),
        CFg(Rgb(132, 0, 1)),
        CFg(Rgb(0, 130, 132)),
        CFg(Rgb(132, 0, 132)),
        CFg(Rgb(117, 117, 117)),
    ]);
    p
}

} // verus!
