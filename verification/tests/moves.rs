use tictactoe::board::{parse_move, Board, MoveError};
use tictactoe::cell::C;
use tictactoe::keypad::{digit, keypad_index};
use tictactoe::rules::WinRule;

fn empty() -> Board {
    Board::new()
}

#[test]
fn new_board_is_empty() {
    let b = empty();
    assert_eq!(b.b, [None; 9]);
    assert_eq!(b.count_empty(), 9);
    assert!(!b.is_full());
}

#[test]
fn keypad_follows_the_numeric_pad() {
    assert_eq!(keypad_index(1), Some(6));
    assert_eq!(keypad_index(2), Some(7));
    assert_eq!(keypad_index(3), Some(8));
    assert_eq!(keypad_index(4), Some(3));
    assert_eq!(keypad_index(5), Some(4));
    assert_eq!(keypad_index(6), Some(5));
    assert_eq!(keypad_index(7), Some(0));
    assert_eq!(keypad_index(8), Some(1));
    assert_eq!(keypad_index(9), Some(2));
}

#[test]
fn keypad_rejects_what_is_no_position() {
    assert_eq!(keypad_index(0), None);
    assert_eq!(keypad_index(10), None);
    assert_eq!(keypad_index(u32::MAX), None);
}

#[test]
fn keypad_is_one_to_one_and_onto() {
    let mut hit = [false; 9];
    for n in 1..=9u32 {
        let i = keypad_index(n).unwrap();
        assert!(i < 9);
        assert!(!hit[i], "square {} reached twice", i);
        hit[i] = true;
    }
    assert!(hit.iter().all(|h| *h));
}

#[test]
fn digit_reads_ascii_digits_only() {
    assert_eq!(digit('0'), Some(0));
    assert_eq!(digit('5'), Some(5));
    assert_eq!(digit('9'), Some(9));
    assert_eq!(digit('/'), None);
    assert_eq!(digit(':'), None);
    assert_eq!(digit('x'), None);
    assert_eq!(digit('\u{0665}'), None);
}

#[test]
fn parse_move_reads_digit_and_mark() {
    assert_eq!(parse_move("5x"), Some((5, C::X)));
    assert_eq!(parse_move("7X\n"), Some((7, C::X)));
    assert_eq!(parse_move("0x"), Some((0, C::X)));
    assert_eq!(parse_move("9x and more"), Some((9, C::X)));
}

#[test]
fn parse_move_rejects_malformed_lines() {
    assert_eq!(parse_move(""), None);
    assert_eq!(parse_move("5"), None);
    assert_eq!(parse_move("5\n"), None);
    assert_eq!(parse_move("5o"), None);
    assert_eq!(parse_move("5O"), None);
    assert_eq!(parse_move("x5"), None);
    assert_eq!(parse_move(" 5x"), None);
    assert_eq!(parse_move("\u{e9}x"), None);
    assert_eq!(parse_move("5\u{e9}"), None);
}

#[test]
fn set_places_the_mark() {
    let mut b = empty();
    assert_eq!(b.set(7, C::X), Ok(()));
    let mut want = [None; 9];
    want[0] = Some(C::X);
    assert_eq!(b.b, want);
    assert_eq!(b.set(3, C::O), Ok(()));
    want[8] = Some(C::O);
    assert_eq!(b.b, want);
}

#[test]
fn set_on_an_occupied_cell_changes_nothing() {
    let mut b = empty();
    assert_eq!(b.set(5, C::O), Ok(()));
    let before = b.b;
    assert_eq!(b.set(5, C::X), Err(MoveError::Occupied));
    assert_eq!(b.b, before);
    assert_eq!(b.set(5, C::O), Err(MoveError::Occupied));
    assert_eq!(b.b, before);
    assert_eq!(b.b[4], Some(C::O));
}

#[test]
fn set_rejects_positions_off_the_pad() {
    let mut b = empty();
    assert_eq!(b.set(0, C::X), Err(MoveError::InvalidPosition));
    assert_eq!(b.set(10, C::X), Err(MoveError::InvalidPosition));
    assert_eq!(b.b, [None; 9]);
}

#[test]
fn try_play_accepts_a_well_formed_move() {
    let mut b = empty();
    assert_eq!(b.try_play("7x\n"), Ok(()));
    assert_eq!(b.b[0], Some(C::X));
    assert_eq!(b.try_play("1X"), Ok(()));
    assert_eq!(b.b[6], Some(C::X));
    assert_eq!(b.count_empty(), 7);
}

#[test]
fn try_play_rejects_a_missing_mark_letter() {
    let mut b = empty();
    assert_eq!(b.try_play("5"), Err(MoveError::Malformed));
    assert_eq!(b.b, [None; 9]);
}

#[test]
fn try_play_rejects_the_wrong_mark_letter() {
    let mut b = empty();
    assert_eq!(b.try_play("5o"), Err(MoveError::Malformed));
    assert_eq!(b.b, [None; 9]);
}

#[test]
fn try_play_rejects_an_empty_line() {
    let mut b = empty();
    assert_eq!(b.try_play(""), Err(MoveError::Malformed));
    assert_eq!(b.try_play("\n"), Err(MoveError::Malformed));
    assert_eq!(b.b, [None; 9]);
}

#[test]
fn try_play_rejects_position_zero() {
    let mut b = empty();
    assert_eq!(b.try_play("0x"), Err(MoveError::InvalidPosition));
    assert_eq!(b.b, [None; 9]);
}

#[test]
fn try_play_rejects_an_occupied_cell() {
    let mut b = Board { b: [None; 9], rules: WinRule::new() };
    b.b[4] = Some(C::O);
    let before = b.b;
    assert_eq!(b.try_play("5x"), Err(MoveError::Occupied));
    assert_eq!(b.b, before);
}

#[test]
fn report_names_the_reason() {
    assert_eq!(MoveError::Malformed.report(), "Invalid move\n");
    assert_eq!(MoveError::InvalidPosition.report(), "Invalid position\nInvalid move\n");
    assert_eq!(MoveError::Occupied.report(), "Ocuupied cell!\nInvalid move\n");
}
