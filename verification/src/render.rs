//! The grid as text.

use vstd::prelude::*;
use vstd::string::*;
use crate::board::Board;
use crate::cell::{C, Cell, glyph_of};

verus! {

/// One row of the grid as text: a line break, then the row's three squares.
pub open spec fn row_text(b: Seq<Cell>, r: int) -> Seq<char> {
    seq!['\n', glyph_of(b[3 * r]), glyph_of(b[3 * r + 1]), glyph_of(b[3 * r + 2])]
}

/// The grid as text: an empty line, the three rows, and a closing line
/// break.
pub open spec fn board_text(b: Seq<Cell>) -> Seq<char> {
    seq!['\n'] + row_text(b, 0) + row_text(b, 1) + row_text(b, 2) + seq!['\n']
}

/// The text that stands before square `n`: the opening line break, and the
/// squares below `n`, each row after a line break of its own.
pub open spec fn text_before(b: Seq<Cell>, n: int) -> Seq<char>
    decreases n,
{
    if n <= 0 {
        seq!['\n']
    } else if (n - 1) % 3 == 0 {
        text_before(b, n - 1) + seq!['\n'] + seq![glyph_of(b[n - 1])]
    } else {
        text_before(b, n - 1) + seq![glyph_of(b[n - 1])]
    }
}

/// The text before square 9, closed by a line break, is the whole grid.
pub proof fn lemma_text_before_all(b: Seq<Cell>)
    ensures
        text_before(b, 9) + seq!['\n'] == board_text(b),
{
    reveal_with_fuel(text_before, 10);
    assert(text_before(b, 9) + seq!['\n'] =~= board_text(b));
}

/// The character of a square, as a piece of text.
pub fn glyph_text(s: &Cell) -> (g: &'static str)
    ensures
        g@ == seq![glyph_of(*s)],
{
    proof {
        reveal_strlit("_");
        reveal_strlit("X");
        reveal_strlit("O");
        reveal_strlit("\u{1D5E2}");
        reveal_strlit("\u{1F5F4}");
    }
    let g = match s {
        None => "_",
        Some(C::X) => "X",
        Some(C::O) => "O",
        Some(C::OWin) => "\u{1D5E2}",
        Some(C::XWin) => "\u{1F5F4}",
    };
    assert(g@ =~= seq![glyph_of(*s)]);
    g
}

impl Board {
    /// The grid as it is shown to the player: an empty line, then the three
    /// rows, each on a line of its own.
    pub fn render_board(&self) -> (text: String)
        ensures
            text@ == board_text(self@),
            text@.len() == 14,
    {
        proof {
            reveal_strlit("\n");
        }
        let mut text = String::new();
        text.append("\n");
        assert(text@ =~= text_before(self@, 0));
        let mut i: usize = 0;
        while i < 9
            invariant
                i <= 9,
                "\n"@ == seq!['\n'],
                text@ == text_before(self@, i as int),
            decreases 9 - i,
        {
            if i % 3 == 0 {
                text.append("\n");
            }
            text.append(glyph_text(&self.b[i]));
            i = i + 1;
        }
        text.append("\n");
        proof {
            lemma_text_before_all(self@);
        }
        text
    }
}

} // verus!
