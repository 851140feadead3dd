//! What a game is set up with: the theme, the size presets, and the size
//! of the field on a given terminal.

use vstd::prelude::*;
use crate::colors::{is_mnswpr_palette, is_og_palette, mnswpr_palette, og_palette, Palette};
use crate::text::append;

verus! {

/// What `str::to_lowercase` makes of a text.
pub uninterp spec fn lowercased(s: Seq<char>) -> Seq<char>;

/// `str::to_lowercase`: the text in lower case, as Unicode defines it. The
/// result depends on the text alone.
#[verifier::external_body]
fn to_lowercase(s: &str) -> (lower: String)
    ensures
        lower@ == lowercased(s@),
{
    s.to_lowercase()
}

/// The two texts are the same.
fn same_text(a: &str, b: &str) -> (same: bool)
    ensures
        same == (a@ == b@),
{
    a.to_owned() == b.to_owned()
}

/// The colours of the game: one of the two built in, or a file of the
/// user's.
#[derive(Clone, Debug)]
pub enum Theme {
    Mnswpr,
    OG,
    Custom(String),
}

/// A theme as a value: a custom one by the text of its path.
pub enum ThemeView {
    Mnswpr,
    OG,
    Custom(Seq<char>),
}

impl View for Theme {
    type V = ThemeView;

    open spec fn view(&self) -> ThemeView {
        match self {
            Theme::Mnswpr => ThemeView::Mnswpr,
            Theme::OG => ThemeView::OG,
            Theme::Custom(path) => ThemeView::Custom(path@),
        }
    }
}

impl Theme {
    /// The theme that a lower-case name stands for: the built-in one of
    /// that name, else the custom theme at that path.
    pub open spec fn of_lowercase(lower: Seq<char>) -> ThemeView {
        if lower == "mnswpr"@ {
            ThemeView::Mnswpr
        } else if lower == "og"@ {
            ThemeView::OG
        } else {
            ThemeView::Custom(lower)
        }
    }

    /// The theme that a lower-case name stands for. Whether a custom path
    /// leads to a file is for the caller to see.
    pub fn from_lowercase(lower: String) -> (theme: Self)
        ensures
            theme@ == Theme::of_lowercase(lower@),
    {
        if same_text(lower.as_str(), "mnswpr") {
            Theme::Mnswpr
        } else if same_text(lower.as_str(), "og") {
            Theme::OG
        } else {
            Theme::Custom(lower)
        }
    }

    /// The theme that a name stands for, whatever its case. A custom path
    /// is kept in lower case.
    pub fn from_name(s: &str) -> (theme: Self)
        ensures
            theme@ == Theme::of_lowercase(lowercased(s@)),
    {
        Theme::from_lowercase(to_lowercase(s))
    }

    /// The palette of a built-in theme; `None` for a custom one, which has
    /// to be read from its file.
    pub fn builtin_palette(&self) -> (res: Option<Palette>)
        ensures
            match self {
                Theme::Mnswpr => res is Some && is_mnswpr_palette(res->0),
                Theme::OG => res is Some && is_og_palette(res->0),
                Theme::Custom(_) => res is None,
            },
    {
        match self {
            Theme::Mnswpr => Some(mnswpr_palette()),
            Theme::OG => Some(og_palette()),
            Theme::Custom(_) => None,
        }
    }

    /// The theme as shown to the user.
    pub open spec fn label_text(self) -> Seq<char> {
        match self {
            Theme::Mnswpr => "mnswpr"@,
            Theme::OG => "og"@,
            Theme::Custom(path) => "Custom theme at "@ + path@,
        }
    }

    /// The theme as shown to the user.
    pub fn label(&self) -> (s: String)
        ensures
            s@ == self.label_text(),
    {
        let mut s = String::new();
        match self {
            Theme::Mnswpr => {
                append(&mut s, "mnswpr");
            },
            Theme::OG => {
                append(&mut s, "og");
            },
            Theme::Custom(path) => {
                append(&mut s, "Custom theme at ");
                append(&mut s, path.as_str());
            },
        }
        assert(s@ =~= self.label_text());
        s
    }
}

/// A named size of the field.
#[derive(Copy, Clone, Debug, PartialEq, Eq, Structural)]
pub enum SizePreset {
    Tiny,
    Small,
    Medium,
    Large,
    Huge,
}

/// What is said of a name that is no size preset.
pub open spec fn unknown_preset_message(name: Seq<char>) -> Seq<char> {
    "Expected one of \"tiny\", \"small\", \"medium\", \"large\", \"huge\". Got \""@ + name + "\""@
}

impl SizePreset {
    /// The pair (columns, rows) of the preset.
    pub open spec fn size(self) -> (u64, u64) {
        match self {
            SizePreset::Tiny => (20, 13),
            SizePreset::Small => (30, 20),
            SizePreset::Medium => (40, 25),
            SizePreset::Large => (50, 30),
            SizePreset::Huge => (60, 40),
        }
    }

    /// The pair (columns, rows) of the preset.
    pub fn to_size(&self) -> (size: (u64, u64))
        ensures
            size == self.size(),
    {
        match self {
            SizePreset::Tiny => (20, 13),
            SizePreset::Small => (30, 20),
            SizePreset::Medium => (40, 25),
            SizePreset::Large => (50, 30),
            SizePreset::Huge => (60, 40),
        }
    }

    /// The name of the preset.
    pub open spec fn name_text(self) -> Seq<char> {
        match self {
            SizePreset::Tiny => "tiny"@,
            SizePreset::Small => "small"@,
            SizePreset::Medium => "medium"@,
            SizePreset::Large => "large"@,
            SizePreset::Huge => "huge"@,
        }
    }

    /// The name of the preset.
    pub fn name(&self) -> (s: &'static str)
        ensures
            s@ == self.name_text(),
    {
        match self {
            SizePreset::Tiny => "tiny",
            SizePreset::Small => "small",
            SizePreset::Medium => "medium",
            SizePreset::Large => "large",
            SizePreset::Huge => "huge",
        }
    }

    /// The preset of the given name, or what is said of a name that is
    /// none.
    pub fn parse(s: &str) -> (res: Result<SizePreset, String>)
        ensures
            match res {
                Ok(preset) => s@ == preset.name_text(),
                Err(msg) => msg@ == unknown_preset_message(s@) && forall|p: SizePreset|
                    s@ != #[trigger] p.name_text(),
            },
    {
        if same_text(s, "tiny") {
            Ok(SizePreset::Tiny)
        } else if same_text(s, "small") {
            Ok(SizePreset::Small)
        } else if same_text(s, "medium") {
            Ok(SizePreset::Medium)
        } else if same_text(s, "large") {
            Ok(SizePreset::Large)
        } else if same_text(s, "huge") {
            Ok(SizePreset::Huge)
        } else {
            let mut msg = String::new();
            append(
                &mut msg,
                "Expected one of \"tiny\", \"small\", \"medium\", \"large\", \"huge\". Got \"",
            );
            append(&mut msg, s);
            append(&mut msg, "\"");
            assert(msg@ =~= unknown_preset_message(s@));
            Err(msg)
        }
    }
}

/// The sides (columns, rows) that fit a terminal of the given size: three
/// characters are drawn per column, two columns are left as a margin, and
/// four lines are left for what stands around the field.
pub open spec fn fitted_size(cols: u64, rows: u64, term_cols: u16, term_rows: u16) -> (int, int) {
    (
        if cols <= (term_cols - 2) / 3 { cols as int } else { (term_cols - 2) / 3 },
        if rows <= term_rows - 4 { rows as int } else { term_rows - 4 },
    )
}

/// The sides (columns, rows) of the field: those asked for, else those of
/// the preset, cut down to what fits the terminal.
pub fn parse_field_size(
    cols: Option<u64>,
    rows: Option<u64>,
    preset: &SizePreset,
    term_cols: u16,
    term_rows: u16,
) -> (size: (usize, usize))
    requires
        term_cols >= 2,
        term_rows >= 4,
    ensures
        (size.0 as int, size.1 as int) == fitted_size(
            if cols is Some { cols->0 } else { preset.size().0 },
            if rows is Some { rows->0 } else { preset.size().1 },
            term_cols,
            term_rows,
        ),
{
    let cols: u64 = match cols {
        Some(c) => c,
        None => preset.to_size().0,
    };
    let room: u16 = (term_cols - 2) / 3;
    let cols: usize = if cols <= room as u64 { cols as usize } else { room as usize };
    let rows: u64 = match rows {
        Some(r) => r,
        None => preset.to_size().1,
    };
    let room: u16 = term_rows - 4;
    let rows: usize = if rows <= room as u64 { rows as usize } else { room as usize };
    (cols, rows)
}

} // verus!
