//! Win detection: which lines that start at a square are completed.

use vstd::prelude::*;
use crate::cell::{Cell, cell_owner, same_mark};
use crate::layout::{WinLayout, lemma_line_on_grid, line_complete};

verus! {

/// The one-element sequence `[l]` where `hit` holds, the empty one otherwise.
pub open spec fn only_if(hit: bool, l: WinLayout) -> Seq<WinLayout> {
    if hit {
        seq![l]
    } else {
        Seq::empty()
    }
}

/// The shapes of the completed lines that start at square `c` of grid `b`,
/// in the order row, column, falling diagonal, rising diagonal.
pub open spec fn matching_layouts(b: Seq<Cell>, c: int) -> Seq<WinLayout> {
    only_if(line_complete(b, WinLayout::A, c), WinLayout::A) + only_if(
        line_complete(b, WinLayout::B, c),
        WinLayout::B,
    ) + only_if(line_complete(b, WinLayout::C, c), WinLayout::C) + only_if(
        line_complete(b, WinLayout::D, c),
        WinLayout::D,
    )
}

/// Whether any completed line starts at square `c` of grid `b`.
pub open spec fn anchors_win(b: Seq<Cell>, c: int) -> bool {
    exists|l: WinLayout| line_complete(b, l, c)
}

/// `matching_layouts` holds a shape exactly when the line of that shape is
/// completed, holds no shape twice, and holds nothing for an empty square.
pub proof fn lemma_matching_layouts(b: Seq<Cell>, c: int)
    ensures
        forall|l: WinLayout| #[trigger]
            matching_layouts(b, c).contains(l) <==> line_complete(b, l, c),
        matching_layouts(b, c).no_duplicates(),
        matching_layouts(b, c).len() <= 4,
        cell_owner(b[c]) is None ==> matching_layouts(b, c).len() == 0,
        matching_layouts(b, c).len() > 0 <==> anchors_win(b, c),
{
    let a = only_if(line_complete(b, WinLayout::A, c), WinLayout::A);
    let bb = only_if(line_complete(b, WinLayout::B, c), WinLayout::B);
    let cc = only_if(line_complete(b, WinLayout::C, c), WinLayout::C);
    let d = only_if(line_complete(b, WinLayout::D, c), WinLayout::D);
    let m = matching_layouts(b, c);
    assert(m == a + bb + cc + d);
    assert forall|l: WinLayout| #[trigger] m.contains(l) <==> line_complete(b, l, c) by {
        if line_complete(b, l, c) {
            match l {
                WinLayout::A => {
                    assert(m[0] == l);
                },
                WinLayout::B => {
                    assert(m[a.len() as int] == l);
                },
                WinLayout::C => {
                    assert(m[(a.len() + bb.len()) as int] == l);
                },
                WinLayout::D => {
                    assert(m[(a.len() + bb.len() + cc.len()) as int] == l);
                },
            }
        }
        if m.contains(l) {
            let i = choose|i: int| 0 <= i < m.len() && m[i] == l;
            assert(m[i] == l);
        }
    }
    if m.len() > 0 {
        assert(m.contains(m[0]));
        assert(line_complete(b, m[0], c));
    }
    if anchors_win(b, c) {
        let l = choose|l: WinLayout| line_complete(b, l, c);
        assert(m.contains(l));
    }
}

/// The rules by which a line counts as won.
#[derive(Clone, Copy, Debug)]
pub struct WinRule {}

impl WinRule {
    /// The rules of the game: rows, columns and both diagonals.
    pub fn new() -> (r: WinRule) {
        WinRule {  }
    }

    /// Whether the line of shape `l` starting at `c` is completed on `b`.
    pub fn line_done(&self, b: &[Cell], l: WinLayout, c: usize) -> (done: bool)
        requires
            b@.len() == 9,
        ensures
            done == line_complete(b@, l, c as int),
    {
        match l.line(c) {
            Some((i, j, k)) => {
                proof {
                    lemma_line_on_grid(l, c as int);
                }
                same_mark(&b[i], &b[j]) && same_mark(&b[i], &b[k])
            },
            None => false,
        }
    }

    /// The shapes of the completed lines that start at square `c`, in the
    /// order row, column, falling diagonal, rising diagonal. A line is
    /// completed when its three squares hold marks of one player; whether
    /// they are already emphasised makes no difference.
    pub fn matches(&self, b: &[Cell], c: usize) -> (v: Vec<WinLayout>)
        requires
            b@.len() == 9,
            c < 9,
        ensures
            v@ == matching_layouts(b@, c as int),
            forall|l: WinLayout| #[trigger] v@.contains(l) <==> line_complete(b@, l, c as int),
            b@[c as int] is None ==> v@.len() == 0,
            v@.len() > 0 <==> anchors_win(b@, c as int),
    {
        let mut v: Vec<WinLayout> = Vec::new();
        proof {
            lemma_matching_layouts(b@, c as int);
        }
        if b[c].is_none() {
            assert(v@ =~= matching_layouts(b@, c as int));
            return v;
        }
        if self.line_done(b, WinLayout::A, c) {
            v.push(WinLayout::A);
        }
        if self.line_done(b, WinLayout::B, c) {
            v.push(WinLayout::B);
        }
        if self.line_done(b, WinLayout::C, c) {
            v.push(WinLayout::C);
        }
        if self.line_done(b, WinLayout::D, c) {
            v.push(WinLayout::D);
        }
        assert(v@ =~= matching_layouts(b@, c as int));
        v
    }
}

} // verus!
