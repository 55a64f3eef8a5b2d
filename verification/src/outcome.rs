//! How a round ends: which squares are on completed lines, who has won, and
//! when the game is drawn.

use vstd::prelude::*;
use crate::board::{Board, full};
use crate::cell::{C, Cell, Player, cell_owner, owner_of, win_cell};
use crate::layout::{WinLayout, anchors, lemma_line_on_grid, line_cells, line_complete, on_line};
use crate::rules::anchors_win;

verus! {

/// The state of the game after a move.
#[derive(Clone, Copy, Debug, PartialEq, Eq, Structural)]
pub enum GameOutcome {
    /// Nobody has won and a square is still empty.
    Continue,
    /// A line is completed; the player is its owner.
    Winner(Player),
    /// Every square is taken and no line is completed.
    Draw,
}

/// Whether some line of grid `b` is completed.
pub open spec fn has_win(b: Seq<Cell>) -> bool {
    exists|l: WinLayout, c: int| #[trigger] line_complete(b, l, c)
}

/// Whether square `i` lies on a completed line of `b` that starts below
/// square `n`.
pub open spec fn on_win_below(b: Seq<Cell>, n: int, i: int) -> bool {
    exists|l: WinLayout, c: int|
        c < n && line_complete(b, l, c) && #[trigger] on_line(l, c, i)
}

/// Whether square `i` lies on a completed line of `b`.
pub open spec fn on_won_line(b: Seq<Cell>, i: int) -> bool {
    on_win_below(b, 9, i)
}

/// Grid `b` with every mark that lies on a completed line emphasised.
pub open spec fn with_wins_marked(b: Seq<Cell>) -> Seq<Cell> {
    Seq::new(b.len(), |i: int| if on_won_line(b, i) { win_cell(b[i]) } else { b[i] })
}

/// The highest square below `n` at which a completed line of `b` starts.
pub open spec fn last_win_below(b: Seq<Cell>, n: int) -> Option<int>
    decreases n,
{
    if n <= 0 {
        None
    } else if anchors_win(b, n - 1) {
        Some(n - 1)
    } else {
        last_win_below(b, n - 1)
    }
}

/// The outcome that grid `b` stands for. Where lines are completed, the winner
/// is the owner of the highest square at which one of them starts; a win
/// goes before a draw.
pub open spec fn outcome_of(b: Seq<Cell>) -> GameOutcome {
    match last_win_below(b, 9) {
        Some(c) => GameOutcome::Winner(owner_of(b[c]->0)),
        None => if full(b) {
            GameOutcome::Draw
        } else {
            GameOutcome::Continue
        },
    }
}

/// `last_win_below(b, n)` is a square below `n` where a completed line
/// starts, and no completed line starts between it and `n`; it is `None`
/// exactly when no completed line starts below `n`.
pub proof fn lemma_last_win_below(b: Seq<Cell>, n: int)
    requires
        b.len() == 9,
        0 <= n <= 9,
    ensures
        match last_win_below(b, n) {
            Some(c) => 0 <= c < n && anchors_win(b, c) && b[c] is Some && forall|d: int|
                c < d < n ==> !anchors_win(b, d),
            None => forall|l: WinLayout, c: int| c < n ==> !#[trigger] line_complete(b, l, c),
        },
    decreases n,
{
    if n > 0 {
        lemma_last_win_below(b, n - 1);
        let a = n - 1;
        if anchors_win(b, a) {
            let l = choose|l: WinLayout| line_complete(b, l, a);
            assert(line_complete(b, l, a));
        } else if last_win_below(b, a) is None {
            assert forall|l: WinLayout, c: int| c < n implies !#[trigger] line_complete(
                b,
                l,
                c,
            ) by {
                if c == a && line_complete(b, l, c) {
                    assert(anchors_win(b, a));
                }
            }
        }
    }
}

/// The outcome is a win exactly when some line is completed, a draw exactly
/// when none is and the grid is full, and otherwise the game goes on.
pub proof fn lemma_outcome(b: Seq<Cell>)
    requires
        b.len() == 9,
    ensures
        outcome_of(b) is Winner <==> has_win(b),
        outcome_of(b) is Draw <==> !has_win(b) && full(b),
        outcome_of(b) is Continue <==> !has_win(b) && !full(b),
{
    lemma_last_win_below(b, 9);
    if has_win(b) {
        let (l, c) = choose|l: WinLayout, c: int| #[trigger] line_complete(b, l, c);
        assert(line_complete(b, l, c));
        assert(c < 9);
    }
    if last_win_below(b, 9) is Some {
        let c = last_win_below(b, 9)->0;
        let l = choose|l: WinLayout| line_complete(b, l, c);
        assert(line_complete(b, l, c));
    }
}

/// Whether two grids have the same owner on every square.
pub open spec fn same_owners(a: Seq<Cell>, b: Seq<Cell>) -> bool {
    &&& a.len() == b.len()
    &&& forall|i: int| 0 <= i < a.len() ==> cell_owner(#[trigger] a[i]) == cell_owner(b[i])
}

/// Whether a line is completed depends on the owners of its squares alone.
pub proof fn lemma_owners_decide(a: Seq<Cell>, b: Seq<Cell>, l: WinLayout, c: int)
    requires
        a.len() == 9,
        same_owners(a, b),
    ensures
        line_complete(a, l, c) == line_complete(b, l, c),
{
    if anchors(l, c) {
        lemma_line_on_grid(l, c);
        let t = line_cells(l, c);
        assert(cell_owner(a[t.0]) == cell_owner(b[t.0]));
        assert(cell_owner(a[t.1]) == cell_owner(b[t.1]));
        assert(cell_owner(a[t.2]) == cell_owner(b[t.2]));
    }
}

impl GameOutcome {
    /// The line that announces this outcome, if the game is over.
    pub fn announcement(&self) -> (line: Option<&'static str>)
        ensures
            match *self {
                GameOutcome::Continue => line is None,
                GameOutcome::Winner(Player::Human) => line is Some && line->0@ == "Human wins"@,
                GameOutcome::Winner(Player::Computer) => line is Some && line->0@ == "Bot wins"@,
                GameOutcome::Draw => line is Some && line->0@ == "Draw!"@,
            },
    {
        match self {
            GameOutcome::Continue => None,
            GameOutcome::Winner(Player::Human) => Some("Human wins"),
            GameOutcome::Winner(Player::Computer) => Some("Bot wins"),
            GameOutcome::Draw => Some("Draw!"),
        }
    }
}

impl Board {
    /// Whether every square holds a mark.
    pub fn is_full(&self) -> (f: bool)
        ensures
            f == full(self@),
    {
        self.count_empty() == 0
    }

    /// Judges the grid after a move. Every mark that lies on a completed
    /// line is emphasised, and nothing else changes. The result is a win
    /// where a line is completed, a draw where none is and the grid is full,
    /// and `Continue` otherwise.
    pub fn check_for_end(&mut self) -> (r: GameOutcome)
        ensures
            final(self)@ == with_wins_marked(old(self)@),
            r == outcome_of(old(self)@),
            r is Winner <==> has_win(old(self)@),
            r is Draw <==> !has_win(old(self)@) && full(old(self)@),
            r is Continue <==> !has_win(old(self)@) && !full(old(self)@),
            !has_win(old(self)@) ==> final(self)@ == old(self)@,
            same_owners(final(self)@, old(self)@),
    {
        let ghost b0 = self@;
        let mut winner: Cell = None;
        let mut c: usize = 0;
        while c < 9
            invariant
                c <= 9,
                b0 == old(self)@,
                b0.len() == 9,
                self@.len() == 9,
                forall|i: int|
                    0 <= i < 9 ==> #[trigger] self@[i] == if on_win_below(b0, c as int, i) {
                        win_cell(b0[i])
                    } else {
                        b0[i]
                    },
                winner == match last_win_below(b0, c as int) {
                    Some(a) => win_cell(b0[a]),
                    None => None::<C>,
                },
            decreases 9 - c,
        {
            assert(same_owners(self@, b0));
            let ghost b1 = self@;
            let wls = self.rules.matches(&self.b, c);
            proof {
                assert forall|l: WinLayout| #[trigger]
                    wls@.contains(l) <==> line_complete(b0, l, c as int) by {
                    lemma_owners_decide(b1, b0, l, c as int);
                }
                assert(anchors_win(b1, c as int) <==> anchors_win(b0, c as int)) by {
                    if anchors_win(b1, c as int) {
                        let l = choose|l: WinLayout| line_complete(b1, l, c as int);
                        lemma_owners_decide(b1, b0, l, c as int);
                    }
                    if anchors_win(b0, c as int) {
                        let l = choose|l: WinLayout| line_complete(b0, l, c as int);
                        lemma_owners_decide(b1, b0, l, c as int);
                    }
                }
            }
            if wls.len() > 0 {
                let mut j: usize = 0;
                while j < wls.len()
                    invariant
                        j <= wls.len(),
                        c < 9,
                        b0.len() == 9,
                        self@.len() == 9,
                        forall|l: WinLayout| #[trigger]
                            wls@.contains(l) <==> line_complete(b0, l, c as int),
                        forall|i: int|
                            0 <= i < 9 ==> #[trigger] self@[i] == if on_win_below(
                                b0,
                                c as int,
                                i,
                            ) || (exists|k: int| 0 <= k < j && #[trigger] on_line(wls@[k], c as int, i)) {
                                win_cell(b0[i])
                            } else {
                                b0[i]
                            },
                    decreases wls.len() - j,
                {
                    let ghost b2 = self@;
                    let wl = wls[j];
                    assert(wls@.contains(wl));
                    wl.apply_win(&mut self.b, c);
                    proof {
                        assert forall|i: int| 0 <= i < 9 implies #[trigger] self@[i] == if on_win_below(
                            b0,
                            c as int,
                            i,
                        ) || (exists|k: int|
                            0 <= k < j + 1 && #[trigger] on_line(wls@[k], c as int, i)) {
                            win_cell(b0[i])
                        } else {
                            b0[i]
                        } by {
                            if on_line(wl, c as int, i) {
                                assert(on_line(wls@[j as int], c as int, i));
                            }
                        }
                    }
                    j = j + 1;
                }
                proof {
                    assert(wls@.contains(wls@[0]));
                    let l0 = wls@[0];
                    assert(line_complete(b0, l0, c as int));
                    assert(on_line(l0, c as int, c as int));
                    assert forall|i: int| 0 <= i < 9 implies #[trigger] self@[i] == if on_win_below(
                        b0,
                        c as int + 1,
                        i,
                    ) {
                        win_cell(b0[i])
                    } else {
                        b0[i]
                    } by {
                        lemma_step_below(b0, wls@, c as int, i);
                    }
                }
                winner = self.b[c];
            } else {
                proof {
                    assert forall|i: int| 0 <= i < 9 implies on_win_below(b0, c as int + 1, i)
                        == on_win_below(b0, c as int, i) by {
                        lemma_step_below(b0, wls@, c as int, i);
                    }
                }
            }
            c = c + 1;
        }
        proof {
            lemma_outcome(b0);
            lemma_last_win_below(b0, 9);
            assert(self@ =~= with_wins_marked(b0));
            if !has_win(b0) {
                assert forall|i: int| 0 <= i < 9 implies !on_won_line(b0, i) by {
                    if on_won_line(b0, i) {
                        let (l, a) = choose|l: WinLayout, a: int|
                            a < 9 && line_complete(b0, l, a) && #[trigger] on_line(l, a, i);
                        assert(line_complete(b0, l, a));
                    }
                }
                assert(self@ =~= b0);
            }
        }
        match winner {
            Some(w) => GameOutcome::Winner(w.owner()),
            None => if self.is_full() {
                GameOutcome::Draw
            } else {
                GameOutcome::Continue
            },
        }
    }
}

/// A square lies on a completed line that starts below `c + 1` exactly when
/// it lies on one that starts below `c`, or on one of the lines found at `c`.
pub proof fn lemma_step_below(b: Seq<Cell>, found: Seq<WinLayout>, c: int, i: int)
    requires
        forall|l: WinLayout| #[trigger] found.contains(l) <==> line_complete(b, l, c),
    ensures
        on_win_below(b, c + 1, i) <==> on_win_below(b, c, i) || exists|k: int|
            0 <= k < found.len() && #[trigger] on_line(found[k], c, i),
{
    if on_win_below(b, c + 1, i) {
        let (l, a) = choose|l: WinLayout, a: int|
            a < c + 1 && line_complete(b, l, a) && #[trigger] on_line(l, a, i);
        if a < c {
            assert(on_win_below(b, c, i));
        } else {
            assert(found.contains(l));
            let k = choose|k: int| 0 <= k < found.len() && found[k] == l;
            assert(on_line(found[k], c, i));
        }
    }
    if on_win_below(b, c, i) {
        let (l, a) = choose|l: WinLayout, a: int|
            a < c && line_complete(b, l, a) && #[trigger] on_line(l, a, i);
        assert(a < c + 1 && line_complete(b, l, a) && on_line(l, a, i));
    }
    if exists|k: int| 0 <= k < found.len() && #[trigger] on_line(found[k], c, i) {
        let k = choose|k: int| 0 <= k < found.len() && #[trigger] on_line(found[k], c, i);
        assert(found.contains(found[k]));
        assert(c < c + 1 && line_complete(b, found[k], c) && on_line(found[k], c, i));
    }
}

} // verus!
