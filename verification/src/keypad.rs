//! Positions as the player types them: the digits of a numeric keypad, with
//! `7 8 9` on the top row and `1 2 3` on the bottom row.

use vstd::prelude::*;

verus! {

/// The square that keypad digit `n` stands for, if `n` is one of 1 to 9.
pub open spec fn keypad_square(n: int) -> Option<int> {
    if n == 1 {
        Some(6)
    } else if n == 2 {
        Some(7)
    } else if n == 3 {
        Some(8)
    } else if n == 4 {
        Some(3)
    } else if n == 5 {
        Some(4)
    } else if n == 6 {
        Some(5)
    } else if n == 7 {
        Some(0)
    } else if n == 8 {
        Some(1)
    } else if n == 9 {
        Some(2)
    } else {
        None
    }
}

/// The keypad digit that stands for square `i`, if `i` is on the grid: the
/// keypad read the other way round.
pub open spec fn square_key(i: int) -> Option<int> {
    if 0 <= i <= 2 {
        Some(i + 7)
    } else if 3 <= i <= 5 {
        Some(i + 1)
    } else if 6 <= i <= 8 {
        Some(i - 5)
    } else {
        None
    }
}

/// The value of a decimal digit character.
pub open spec fn digit_value(ch: char) -> Option<int> {
    if '0' <= ch && ch <= '9' {
        Some(ch as int - '0' as int)
    } else {
        None
    }
}

/// The square that keypad digit `n` stands for: `None` unless `n` is one of
/// 1 to 9.
pub fn keypad_index(n: u32) -> (r: Option<usize>)
    ensures
        r is Some <==> 1 <= n <= 9,
        match r {
            Some(i) => keypad_square(n as int) == Some(i as int) && i < 9,
            None => keypad_square(n as int) is None,
        },
{
    match n {
        1 => Some(6),
        2 => Some(7),
        3 => Some(8),
        4 => Some(3),
        5 => Some(4),
        6 => Some(5),
        7 => Some(0),
        8 => Some(1),
        9 => Some(2),
        _ => None,
    }
}

/// The value of a decimal digit character, `None` for any other character.
pub fn digit(ch: char) -> (r: Option<u32>)
    ensures
        match r {
            Some(n) => digit_value(ch) == Some(n as int) && n <= 9,
            None => digit_value(ch) is None,
        },
{
    if '0' <= ch && ch <= '9' {
        Some(ch as u32 - '0' as u32)
    } else {
        None
    }
}

/// The keypad digits 1 to 9 and the squares 0 to 8 correspond one to one:
/// every digit has a square, no two digits share one, every square has a
/// digit, and nothing else has a square.
///
/// ```text
/// 7 8 9        0 1 2
/// 4 5 6   for  3 4 5
/// 1 2 3        6 7 8
/// ```
pub proof fn lemma_keypad_bijection()
    ensures
        forall|n: int| 1 <= n <= 9 <==> #[trigger] keypad_square(n) is Some,
        forall|n: int|
            1 <= n <= 9 ==> 0 <= (#[trigger] keypad_square(n))->0 <= 8,
        forall|n: int, m: int|
            1 <= n <= 9 && 1 <= m <= 9 && #[trigger] keypad_square(n) == #[trigger] keypad_square(
                m,
            ) ==> n == m,
        forall|i: int|
            0 <= i <= 8 ==> 1 <= (#[trigger] square_key(i))->0 <= 9 && keypad_square(
                square_key(i)->0,
            ) == Some(i),
        forall|n: int| 1 <= n <= 9 ==> square_key((#[trigger] keypad_square(n))->0) == Some(n),
{
}

} // verus!
