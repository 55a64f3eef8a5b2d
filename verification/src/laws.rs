//! What holds of win detection and of the end-of-round check on every grid.

use vstd::prelude::*;
use crate::board::full;
use crate::cell::{Cell, cell_owner, is_win_mark, owner_of};
use crate::layout::{WinLayout, anchors, lemma_line_on_grid, line_cells, line_complete, on_line};
use crate::outcome::{
    GameOutcome,
    has_win,
    last_win_below,
    lemma_last_win_below,
    lemma_outcome,
    lemma_owners_decide,
    on_won_line,
    outcome_of,
    same_owners,
    with_wins_marked,
};
use crate::rules::{anchors_win, matching_layouts};

verus! {

/// Whether a square holds an emphasised mark.
pub open spec fn emphasised_at(b: Seq<Cell>, i: int) -> bool {
    b[i] is Some && is_win_mark(b[i]->0)
}

/// Whether no mark of grid `b` is emphasised.
pub open spec fn plain(b: Seq<Cell>) -> bool {
    forall|i: int| 0 <= i < b.len() ==> !emphasised_at(b, i)
}

/// The number of emphasised marks among the first `n` squares of `b`.
pub open spec fn emphasised_below(b: Seq<Cell>, n: int) -> nat
    decreases n,
{
    if n <= 0 {
        0
    } else if emphasised_at(b, n - 1) {
        emphasised_below(b, n - 1) + 1
    } else {
        emphasised_below(b, n - 1)
    }
}

/// Whether two lines cover the same three squares.
pub open spec fn same_squares(l: WinLayout, c: int, m: WinLayout, d: int) -> bool {
    forall|i: int| 0 <= i < 9 ==> (on_line(l, c, i) <==> on_line(m, d, i))
}

/// A line is completed exactly when its start is allowed for its shape and
/// its three squares are marked by one player. Emphasis makes no
/// difference: two grids with the same owners have the same completed lines,
/// and the same shapes are found at every square.
pub proof fn lemma_detection_by_owner(a: Seq<Cell>, b: Seq<Cell>, l: WinLayout, c: int)
    requires
        a.len() == 9,
        same_owners(a, b),
    ensures
        line_complete(a, l, c) <==> anchors(l, c) && cell_owner(a[line_cells(l, c).0]) is Some
            && cell_owner(a[line_cells(l, c).0]) == cell_owner(a[line_cells(l, c).1])
            && cell_owner(a[line_cells(l, c).0]) == cell_owner(a[line_cells(l, c).2]),
        line_complete(a, l, c) == line_complete(b, l, c),
        matching_layouts(a, c) == matching_layouts(b, c),
        has_win(a) == has_win(b),
{
    lemma_owners_decide(a, b, l, c);
    lemma_owners_decide(a, b, WinLayout::A, c);
    lemma_owners_decide(a, b, WinLayout::B, c);
    lemma_owners_decide(a, b, WinLayout::C, c);
    lemma_owners_decide(a, b, WinLayout::D, c);
    if has_win(a) {
        let (m, d) = choose|m: WinLayout, d: int| #[trigger] line_complete(a, m, d);
        lemma_owners_decide(a, b, m, d);
    }
    if has_win(b) {
        let (m, d) = choose|m: WinLayout, d: int| #[trigger] line_complete(b, m, d);
        lemma_owners_decide(a, b, m, d);
    }
}

/// Emphasising the completed lines changes no owner, and so neither the
/// completed lines nor the winner; doing it twice is doing it once.
pub proof fn lemma_marking_is_idempotent(b: Seq<Cell>)
    requires
        b.len() == 9,
    ensures
        same_owners(with_wins_marked(b), b),
        with_wins_marked(with_wins_marked(b)) == with_wins_marked(b),
        outcome_of(with_wins_marked(b)) == outcome_of(b),
{
    let m = with_wins_marked(b);
    assert(same_owners(m, b));
    assert forall|i: int| 0 <= i < 9 implies on_won_line(m, i) == on_won_line(b, i) by {
        if on_won_line(m, i) {
            let (l, c) = choose|l: WinLayout, c: int|
                c < 9 && line_complete(m, l, c) && #[trigger] on_line(l, c, i);
            lemma_owners_decide(m, b, l, c);
            assert(c < 9 && line_complete(b, l, c) && on_line(l, c, i));
        }
        if on_won_line(b, i) {
            let (l, c) = choose|l: WinLayout, c: int|
                c < 9 && line_complete(b, l, c) && #[trigger] on_line(l, c, i);
            lemma_owners_decide(m, b, l, c);
            assert(c < 9 && line_complete(m, l, c) && on_line(l, c, i));
        }
    }
    assert(with_wins_marked(m) =~= m);
    lemma_same_outcome(m, b);
}

/// Two grids with the same owners have the same outcome.
pub proof fn lemma_same_outcome(a: Seq<Cell>, b: Seq<Cell>)
    requires
        a.len() == 9,
        same_owners(a, b),
    ensures
        outcome_of(a) == outcome_of(b),
{
    lemma_same_last_win(a, b, 9);
    assert(full(a) == full(b)) by {
        if full(a) {
            assert forall|i: int| 0 <= i < b.len() implies b[i] is Some by {
                assert(cell_owner(a[i]) == cell_owner(b[i]));
            }
        }
        if full(b) {
            assert forall|i: int| 0 <= i < a.len() implies a[i] is Some by {
                assert(cell_owner(a[i]) == cell_owner(b[i]));
            }
        }
    }
    lemma_last_win_below(a, 9);
    if last_win_below(a, 9) is Some {
        let c = last_win_below(a, 9)->0;
        assert(cell_owner(a[c]) == cell_owner(b[c]));
    }
}

/// Two grids with the same owners have their last win at the same square.
pub proof fn lemma_same_last_win(a: Seq<Cell>, b: Seq<Cell>, n: int)
    requires
        a.len() == 9,
        same_owners(a, b),
        n <= 9,
    ensures
        last_win_below(a, n) == last_win_below(b, n),
    decreases n,
{
    if n > 0 {
        lemma_same_last_win(a, b, n - 1);
        let c = n - 1;
        if anchors_win(a, c) {
            let l = choose|l: WinLayout| line_complete(a, l, c);
            lemma_owners_decide(a, b, l, c);
        }
        if anchors_win(b, c) {
            let l = choose|l: WinLayout| line_complete(b, l, c);
            lemma_owners_decide(a, b, l, c);
        }
    }
}

/// On a grid without emphasis on which one line is completed, the end of
/// the round names the owner of that line as the winner and emphasises the
/// three marks of the line and no others.
pub proof fn lemma_single_line(b: Seq<Cell>, l: WinLayout, c: int)
    requires
        b.len() == 9,
        plain(b),
        line_complete(b, l, c),
        forall|m: WinLayout, d: int| #[trigger] line_complete(b, m, d) ==> same_squares(l, c, m, d),
    ensures
        outcome_of(b) == GameOutcome::Winner(owner_of(b[c]->0)),
        forall|i: int|
            0 <= i < 9 ==> (emphasised_at(with_wins_marked(b), i) <==> on_line(l, c, i)),
        forall|i: int| 0 <= i < 9 && !on_line(l, c, i) ==> with_wins_marked(b)[i] == b[i],
        emphasised_below(with_wins_marked(b), 9) == 3,
{
    let m = with_wins_marked(b);
    lemma_line_on_grid(l, c);
    let t = line_cells(l, c);
    assert forall|i: int| 0 <= i < 9 implies (on_won_line(b, i) <==> on_line(l, c, i)) by {
        if on_won_line(b, i) {
            let (k, d) = choose|k: WinLayout, d: int|
                d < 9 && line_complete(b, k, d) && #[trigger] on_line(k, d, i);
            assert(same_squares(l, c, k, d));
        }
        if on_line(l, c, i) {
            assert(c < 9 && line_complete(b, l, c) && on_line(l, c, i));
        }
    }
    assert forall|i: int| 0 <= i < 9 implies (emphasised_at(m, i) <==> on_line(l, c, i)) by {
        assert(!emphasised_at(b, i));
        if on_line(l, c, i) {
            assert(cell_owner(b[i]) is Some);
        }
    }
    lemma_outcome(b);
    lemma_last_win_below(b, 9);
    let a = last_win_below(b, 9)->0;
    let k = choose|k: WinLayout| line_complete(b, k, a);
    assert(line_complete(b, k, a));
    assert(same_squares(l, c, k, a));
    assert(on_line(k, a, a));
    assert(on_line(l, c, a));
    assert(cell_owner(b[a]) == cell_owner(b[c]));
    lemma_count_three(m, t.0, t.1, t.2);
}

/// A grid on which exactly three given squares are emphasised has three
/// emphasised marks.
pub proof fn lemma_count_three(b: Seq<Cell>, i: int, j: int, k: int)
    requires
        b.len() == 9,
        0 <= i < 9,
        0 <= j < 9,
        0 <= k < 9,
        i != j,
        i != k,
        j != k,
        forall|n: int| 0 <= n < 9 ==> (emphasised_at(b, n) <==> n == i || n == j || n == k),
    ensures
        emphasised_below(b, 9) == 3,
{
    reveal_with_fuel(emphasised_below, 10);
    assert(emphasised_at(b, 0) <==> 0 == i || 0 == j || 0 == k);
    assert(emphasised_at(b, 1) <==> 1 == i || 1 == j || 1 == k);
    assert(emphasised_at(b, 2) <==> 2 == i || 2 == j || 2 == k);
    assert(emphasised_at(b, 3) <==> 3 == i || 3 == j || 3 == k);
    assert(emphasised_at(b, 4) <==> 4 == i || 4 == j || 4 == k);
    assert(emphasised_at(b, 5) <==> 5 == i || 5 == j || 5 == k);
    assert(emphasised_at(b, 6) <==> 6 == i || 6 == j || 6 == k);
    assert(emphasised_at(b, 7) <==> 7 == i || 7 == j || 7 == k);
    assert(emphasised_at(b, 8) <==> 8 == i || 8 == j || 8 == k);
}

/// Whatever lines are completed, each of them is emphasised whole by the end
/// of the round, and every mark keeps its owner.
pub proof fn lemma_every_line_marked(b: Seq<Cell>, l: WinLayout, c: int)
    requires
        b.len() == 9,
        line_complete(b, l, c),
    ensures
        outcome_of(b) is Winner,
        emphasised_at(with_wins_marked(b), line_cells(l, c).0),
        emphasised_at(with_wins_marked(b), line_cells(l, c).1),
        emphasised_at(with_wins_marked(b), line_cells(l, c).2),
        same_owners(with_wins_marked(b), b),
{
    lemma_line_on_grid(l, c);
    lemma_outcome(b);
    let t = line_cells(l, c);
    assert(c < 9 && line_complete(b, l, c) && on_line(l, c, t.0));
    assert(c < 9 && line_complete(b, l, c) && on_line(l, c, t.1));
    assert(c < 9 && line_complete(b, l, c) && on_line(l, c, t.2));
    assert(cell_owner(b[t.0]) is Some);
    assert(cell_owner(b[t.1]) is Some);
    assert(cell_owner(b[t.2]) is Some);
}

/// A draw is called only on a full grid without a completed line, and on
/// every such grid.
pub proof fn lemma_draw(b: Seq<Cell>)
    requires
        b.len() == 9,
    ensures
        outcome_of(b) is Draw <==> full(b) && forall|l: WinLayout, c: int|
            !#[trigger] line_complete(b, l, c),
{
    lemma_outcome(b);
}

} // verus!
