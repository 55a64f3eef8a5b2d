use tictactoe::cell::{emphasised, glyph, same_mark, Cell, Player, C};
use tictactoe::layout::WinLayout;
use tictactoe::rules::WinRule;

const X: Cell = Some(C::X);
const O: Cell = Some(C::O);
const XW: Cell = Some(C::XWin);
const OW: Cell = Some(C::OWin);
const E: Cell = None;

fn none() -> Vec<WinLayout> {
    Vec::new()
}

#[test]
fn owner_ignores_emphasis() {
    assert_eq!(C::X.owner(), Player::Human);
    assert_eq!(C::XWin.owner(), Player::Human);
    assert_eq!(C::O.owner(), Player::Computer);
    assert_eq!(C::OWin.owner(), Player::Computer);
}

#[test]
fn winning_form_of_each_mark() {
    assert_eq!(C::X.winning(), C::XWin);
    assert_eq!(C::XWin.winning(), C::XWin);
    assert_eq!(C::O.winning(), C::OWin);
    assert_eq!(C::OWin.winning(), C::OWin);
    assert!(C::XWin.is_winning());
    assert!(C::OWin.is_winning());
    assert!(!C::X.is_winning());
    assert!(!C::O.is_winning());
    assert_eq!(emphasised(&X), XW);
    assert_eq!(emphasised(&OW), OW);
    assert_eq!(emphasised(&E), E);
}

#[test]
fn same_owner_treats_a_mark_and_its_winning_form_alike() {
    assert!(C::X.same_owner(&C::X));
    assert!(C::X.same_owner(&C::XWin));
    assert!(C::XWin.same_owner(&C::X));
    assert!(C::XWin.same_owner(&C::XWin));
    assert!(C::O.same_owner(&C::OWin));
    assert!(C::OWin.same_owner(&C::OWin));
    assert!(!C::X.same_owner(&C::O));
    assert!(!C::XWin.same_owner(&C::OWin));
    assert!(!C::O.same_owner(&C::XWin));
}

#[test]
fn same_mark_needs_two_marks() {
    assert!(same_mark(&X, &XW));
    assert!(same_mark(&OW, &OW));
    assert!(!same_mark(&E, &E));
    assert!(!same_mark(&X, &E));
    assert!(!same_mark(&E, &O));
    assert!(!same_mark(&X, &O));
}

#[test]
fn glyphs_are_distinct() {
    assert_eq!(glyph(&E), '_');
    assert_eq!(glyph(&X), 'X');
    assert_eq!(glyph(&O), 'O');
    assert_eq!(glyph(&OW), '\u{1D5E2}');
    assert_eq!(glyph(&XW), '\u{1F5F4}');
}

#[test]
fn line_gives_the_cells_of_each_shape() {
    assert_eq!(WinLayout::A.line(0), Some((0, 1, 2)));
    assert_eq!(WinLayout::A.line(3), Some((3, 4, 5)));
    assert_eq!(WinLayout::A.line(6), Some((6, 7, 8)));
    assert_eq!(WinLayout::A.line(1), None);
    assert_eq!(WinLayout::A.line(8), None);
    assert_eq!(WinLayout::B.line(0), Some((0, 3, 6)));
    assert_eq!(WinLayout::B.line(2), Some((2, 5, 8)));
    assert_eq!(WinLayout::B.line(4), Some((4, 7, 1)));
    assert_eq!(WinLayout::B.line(8), Some((8, 2, 5)));
    assert_eq!(WinLayout::C.line(0), Some((0, 4, 8)));
    assert_eq!(WinLayout::C.line(4), None);
    assert_eq!(WinLayout::D.line(2), Some((2, 4, 6)));
    assert_eq!(WinLayout::D.line(0), None);
    assert_eq!(WinLayout::B.line(9), None);
    assert_eq!(WinLayout::A.line(9), None);
}

#[test]
fn matches_finds_a_row_at_its_left_end_only() {
    let r = WinRule::new();
    let b = [E, E, E, X, X, X, O, O, E];
    assert_eq!(r.matches(&b, 3), vec![WinLayout::A]);
    assert_eq!(r.matches(&b, 4), none());
    assert_eq!(r.matches(&b, 5), none());
    assert_eq!(r.matches(&b, 6), none());
    assert_eq!(r.matches(&b, 0), none());
}

#[test]
fn matches_finds_a_column_from_each_of_its_cells() {
    let r = WinRule::new();
    let b = [X, O, E, X, O, E, E, O, X];
    assert_eq!(r.matches(&b, 1), vec![WinLayout::B]);
    assert_eq!(r.matches(&b, 4), vec![WinLayout::B]);
    assert_eq!(r.matches(&b, 7), vec![WinLayout::B]);
    assert_eq!(r.matches(&b, 0), none());
    assert_eq!(r.matches(&b, 3), none());
    assert_eq!(r.matches(&b, 8), none());
}

#[test]
fn matches_finds_both_diagonals() {
    let r = WinRule::new();
    let falling = [O, X, X, E, O, E, X, E, O];
    assert_eq!(r.matches(&falling, 0), vec![WinLayout::C]);
    assert_eq!(r.matches(&falling, 4), none());
    assert_eq!(r.matches(&falling, 8), none());
    let rising = [O, O, X, E, X, E, X, E, O];
    assert_eq!(r.matches(&rising, 2), vec![WinLayout::D]);
    assert_eq!(r.matches(&rising, 4), none());
    assert_eq!(r.matches(&rising, 6), none());
}

#[test]
fn matches_reports_several_shapes_in_order() {
    let r = WinRule::new();
    let b = [X, X, X, X, X, O, X, O, X];
    assert_eq!(r.matches(&b, 0), vec![WinLayout::A, WinLayout::B, WinLayout::C]);
    assert_eq!(r.matches(&b, 2), vec![WinLayout::D]);
    let all = [O; 9];
    assert_eq!(r.matches(&all, 0), vec![WinLayout::A, WinLayout::B, WinLayout::C]);
    assert_eq!(r.matches(&all, 2), vec![WinLayout::B, WinLayout::D]);
    assert_eq!(r.matches(&all, 3), vec![WinLayout::A, WinLayout::B]);
    assert_eq!(r.matches(&all, 4), vec![WinLayout::B]);
}

#[test]
fn matches_is_empty_for_an_empty_anchor() {
    let r = WinRule::new();
    let b = [E; 9];
    for c in 0..9 {
        assert_eq!(r.matches(&b, c), none());
    }
    let some = [E, X, X, E, X, E, E, X, E];
    assert_eq!(r.matches(&some, 0), none());
}

#[test]
fn matches_ignores_emphasis() {
    let r = WinRule::new();
    let b = [XW, X, XW, O, O, E, E, E, E];
    assert_eq!(r.matches(&b, 0), vec![WinLayout::A]);
    let all_marked = [XW, XW, XW, O, O, E, E, E, E];
    assert_eq!(r.matches(&all_marked, 0), vec![WinLayout::A]);
    let mixed = [OW, X, E, O, X, E, OW, E, X];
    assert_eq!(r.matches(&mixed, 0), vec![WinLayout::B]);
    assert_eq!(r.matches(&mixed, 6), vec![WinLayout::B]);
}

#[test]
fn matches_needs_one_owner() {
    let r = WinRule::new();
    let b = [X, X, O, O, O, X, X, O, X];
    for c in 0..9 {
        assert_eq!(r.matches(&b, c), none());
    }
    let flagged = [XW, XW, OW, E, E, E, E, E, E];
    assert_eq!(r.matches(&flagged, 0), none());
}

#[test]
fn line_done_agrees_with_matches() {
    let r = WinRule::new();
    let b = [X, X, X, E, O, O, E, E, E];
    assert!(r.line_done(&b, WinLayout::A, 0));
    assert!(!r.line_done(&b, WinLayout::A, 3));
    assert!(!r.line_done(&b, WinLayout::A, 1));
    assert!(!r.line_done(&b, WinLayout::B, 0));
    assert!(!r.line_done(&b, WinLayout::C, 0));
    assert!(!r.line_done(&b, WinLayout::D, 2));
    assert!(!r.line_done(&b, WinLayout::A, 9));
}

#[test]
fn apply_win_marks_the_three_cells_of_a_row() {
    let mut b = [E, O, E, X, X, X, O, E, E];
    WinLayout::A.apply_win(&mut b, 3);
    assert_eq!(b, [E, O, E, XW, XW, XW, O, E, E]);
}

#[test]
fn apply_win_marks_a_column_from_any_of_its_cells() {
    let mut top = [E, O, X, E, O, X, X, O, E];
    WinLayout::B.apply_win(&mut top, 1);
    assert_eq!(top, [E, OW, X, E, OW, X, X, OW, E]);
    let mut mid = [E, O, X, E, O, X, X, O, E];
    WinLayout::B.apply_win(&mut mid, 4);
    assert_eq!(mid, [E, OW, X, E, OW, X, X, OW, E]);
    let mut low = [E, O, X, E, O, X, X, O, E];
    WinLayout::B.apply_win(&mut low, 7);
    assert_eq!(low, [E, OW, X, E, OW, X, X, OW, E]);
}

#[test]
fn apply_win_marks_the_diagonals() {
    let mut falling = [X, O, E, O, X, E, E, E, X];
    WinLayout::C.apply_win(&mut falling, 0);
    assert_eq!(falling, [XW, O, E, O, XW, E, E, E, XW]);
    let mut rising = [X, X, O, E, O, E, O, E, X];
    WinLayout::D.apply_win(&mut rising, 2);
    assert_eq!(rising, [X, X, OW, E, OW, E, OW, E, X]);
}

#[test]
fn apply_win_leaves_winning_marks_as_they_are() {
    let mut b = [XW, X, XW, E, O, O, E, E, E];
    WinLayout::A.apply_win(&mut b, 0);
    assert_eq!(b, [XW, XW, XW, E, O, O, E, E, E]);
    WinLayout::A.apply_win(&mut b, 0);
    assert_eq!(b, [XW, XW, XW, E, O, O, E, E, E]);
}
