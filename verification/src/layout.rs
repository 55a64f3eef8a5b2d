//! The four shapes a line of three can take, and where each one lies on the
//! grid when it starts from a given square.

use vstd::prelude::*;
use crate::cell::{Cell, cell_owner, emphasised, win_cell};

verus! {

/// Number of squares on the grid. Squares are numbered row by row, so square
/// `i` lies in row `i / 3` and column `i % 3`.
pub const CELLS: usize = 9;

/// The shape of a line of three.
#[derive(Clone, Copy, Debug, PartialEq, Eq, Structural)]
pub enum WinLayout {
    /// A row, read from its leftmost square.
    A,
    /// A column, read from any of its squares, wrapping round the grid.
    B,
    /// The diagonal that falls from the top left corner.
    C,
    /// The diagonal that falls from the top right corner.
    D,
}

/// Whether a line of shape `l` may start at square `c`.
pub open spec fn anchors(l: WinLayout, c: int) -> bool {
    &&& 0 <= c < 9
    &&& match l {
        WinLayout::A => c % 3 == 0,
        WinLayout::B => true,
        WinLayout::C => c == 0,
        WinLayout::D => c == 2,
    }
}

/// The three squares of the line of shape `l` that starts at `c`.
pub open spec fn line_cells(l: WinLayout, c: int) -> (int, int, int) {
    match l {
        WinLayout::A => (c, c + 1, c + 2),
        WinLayout::B => (c, (c + 3) % 9, (c + 6) % 9),
        WinLayout::C => (c, c + 4, c + 8),
        WinLayout::D => (c, c + 2, c + 4),
    }
}

/// Whether square `i` belongs to the line of shape `l` that starts at `c`.
pub open spec fn on_line(l: WinLayout, c: int, i: int) -> bool {
    let t = line_cells(l, c);
    i == t.0 || i == t.1 || i == t.2
}

/// Whether three squares are all marked, and all by one player.
pub open spec fn three_alike(b: Seq<Cell>, i: int, j: int, k: int) -> bool {
    &&& cell_owner(b[i]) is Some
    &&& cell_owner(b[i]) == cell_owner(b[j])
    &&& cell_owner(b[i]) == cell_owner(b[k])
}

/// Whether the line of shape `l` starting at `c` exists and is completed on
/// grid `b`: its three squares hold marks of one player, emphasised or not.
pub open spec fn line_complete(b: Seq<Cell>, l: WinLayout, c: int) -> bool {
    let t = line_cells(l, c);
    anchors(l, c) && three_alike(b, t.0, t.1, t.2)
}

/// Grid `b` with the three squares of one line emphasised. Squares off the
/// line, and empty squares on it, are as in `b`.
pub open spec fn with_line_marked(b: Seq<Cell>, l: WinLayout, c: int) -> Seq<Cell> {
    Seq::new(b.len(), |i: int| if on_line(l, c, i) { win_cell(b[i]) } else { b[i] })
}

/// The squares of a line stay on the grid.
pub proof fn lemma_line_on_grid(l: WinLayout, c: int)
    requires
        anchors(l, c),
    ensures
        0 <= line_cells(l, c).0 < 9,
        0 <= line_cells(l, c).1 < 9,
        0 <= line_cells(l, c).2 < 9,
        line_cells(l, c).0 == c,
        line_cells(l, c).0 != line_cells(l, c).1,
        line_cells(l, c).0 != line_cells(l, c).2,
        line_cells(l, c).1 != line_cells(l, c).2,
{
}

impl WinLayout {
    /// The three squares of the line of this shape that starts at `c`, or
    /// `None` where no line of this shape starts there.
    pub fn line(&self, c: usize) -> (t: Option<(usize, usize, usize)>)
        ensures
            t is Some <==> anchors(*self, c as int),
            t matches Some(s) ==> (s.0 as int, s.1 as int, s.2 as int) == line_cells(
                *self,
                c as int,
            ),
    {
        if c >= CELLS {
            return None;
        }
        match self {
            WinLayout::A => if c % 3 == 0 {
                Some((c, c + 1, c + 2))
            } else {
                None
            },
            WinLayout::B => Some((c, (c + 3) % 9, (c + 6) % 9)),
            WinLayout::C => if c == 0 {
                Some((c, c + 4, c + 8))
            } else {
                None
            },
            WinLayout::D => if c == 2 {
                Some((c, c + 2, c + 4))
            } else {
                None
            },
        }
    }

    /// Emphasises the marks on the line of this shape that starts at `c`.
    /// Each of its three squares keeps its owner; everything else is untouched.
    pub fn apply_win(&self, b: &mut [Cell], c: usize)
        requires
            old(b)@.len() == 9,
            anchors(*self, c as int),
        ensures
            final(b)@ == with_line_marked(old(b)@, *self, c as int),
    {
        proof {
            lemma_line_on_grid(*self, c as int);
        }
        match self.line(c) {
            Some((i, j, k)) => {
                let wi: Cell = emphasised(&b[i]);
                let wj: Cell = emphasised(&b[j]);
                let wk: Cell = emphasised(&b[k]);
                b[i] = wi;
                b[j] = wj;
                b[k] = wk;
                assert(b@ =~= with_line_marked(old(b)@, *self, c as int));
            },
            None => {},
        }
    }
}

} // verus!
