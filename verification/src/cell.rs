//! Cells of the grid and the players that own them.

use vstd::prelude::*;

verus! {

/// One of the two sides of a game.
#[derive(Clone, Copy, Debug, PartialEq, Eq, Structural)]
pub enum Player {
    Human,
    Computer,
}

/// A mark on the grid. `XWin` and `OWin` are `X` and `O` drawn with emphasis,
/// once they belong to a completed line.
#[derive(Clone, Copy, Debug, PartialEq, Eq, Structural)]
pub enum C {
    X,
    O,
    XWin,
    OWin,
}

/// The content of one square: `None` while it is empty.
pub type Cell = Option<C>;

/// The player a mark belongs to, emphasised or not.
pub open spec fn owner_of(m: C) -> Player {
    match m {
        C::X | C::XWin => Player::Human,
        C::O | C::OWin => Player::Computer,
    }
}

/// Whether a mark is drawn with emphasis.
pub open spec fn is_win_mark(m: C) -> bool {
    m == C::XWin || m == C::OWin
}

/// The emphasised form of a mark. An emphasised mark is its own.
pub open spec fn win_mark(m: C) -> C {
    match m {
        C::X | C::XWin => C::XWin,
        C::O | C::OWin => C::OWin,
    }
}

/// The owner of a square, if it has one.
pub open spec fn cell_owner(s: Cell) -> Option<Player> {
    match s {
        Some(m) => Some(owner_of(m)),
        None => None,
    }
}

/// A square with its mark emphasised; an empty square stays empty.
pub open spec fn win_cell(s: Cell) -> Cell {
    match s {
        Some(m) => Some(win_mark(m)),
        None => None,
    }
}

/// The character that stands for a square in the rendered grid.
pub open spec fn glyph_of(s: Cell) -> char {
    match s {
        None => '_',
        Some(C::X) => 'X',
        Some(C::O) => 'O',
        Some(C::OWin) => '\u{1D5E2}',
        Some(C::XWin) => '\u{1F5F4}',
    }
}

impl C {
    /// The player this mark belongs to.
    pub fn owner(&self) -> (p: Player)
        ensures
            p == owner_of(*self),
    {
        match self {
            C::X | C::XWin => Player::Human,
            C::O | C::OWin => Player::Computer,
        }
    }

    /// Whether this mark is drawn with emphasis.
    pub fn is_winning(&self) -> (w: bool)
        ensures
            w == is_win_mark(*self),
    {
        match self {
            C::XWin | C::OWin => true,
            C::X | C::O => false,
        }
    }

    /// The emphasised form of this mark.
    pub fn winning(&self) -> (m: C)
        ensures
            m == win_mark(*self),
    {
        match self {
            C::X | C::XWin => C::XWin,
            C::O | C::OWin => C::OWin,
        }
    }

    /// Whether two marks belong to the same player. Emphasis plays no part.
    pub fn same_owner(&self, other: &C) -> (same: bool)
        ensures
            same == (owner_of(*self) == owner_of(*other)),
    {
        match (self, other) {
            (C::X, C::X) | (C::X, C::XWin) | (C::XWin, C::X) | (C::XWin, C::XWin) => true,
            (C::O, C::O) | (C::O, C::OWin) | (C::OWin, C::O) | (C::OWin, C::OWin) => true,
            _ => false,
        }
    }
}

/// Whether two squares are both marked, and by the same player.
pub fn same_mark(a: &Cell, b: &Cell) -> (same: bool)
    ensures
        same == (cell_owner(*a) is Some && cell_owner(*a) == cell_owner(*b)),
{
    match (a, b) {
        (Some(x), Some(y)) => x.same_owner(y),
        _ => false,
    }
}

/// A square with its mark emphasised; an empty square stays empty.
pub fn emphasised(s: &Cell) -> (w: Cell)
    ensures
        w == win_cell(*s),
{
    match s {
        Some(m) => Some(m.winning()),
        None => None,
    }
}

/// The character that stands for a square in the rendered grid.
pub fn glyph(s: &Cell) -> (g: char)
    ensures
        g == glyph_of(*s),
{
    match s {
        None => '_',
        Some(C::X) => 'X',
        Some(C::O) => 'O',
        Some(C::OWin) => '\u{1D5E2}',
        Some(C::XWin) => '\u{1F5F4}',
    }
}

} // verus!
