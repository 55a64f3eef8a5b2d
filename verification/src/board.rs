//! The grid itself and the moves made on it.

use vstd::prelude::*;
use vstd::string::*;
use crate::cell::{C, Cell};
use crate::clock::since_epoch;
use crate::keypad::{digit, digit_value, keypad_index, keypad_square};
use crate::rules::WinRule;

verus! {

/// Why a move was turned down.
#[derive(Clone, Copy, Debug, PartialEq, Eq, Structural)]
pub enum MoveError {
    /// The text is not a digit followed by `x` or `X`.
    Malformed,
    /// The position is not one of 1 to 9, so it names no square.
    InvalidPosition,
    /// The square already holds a mark.
    Occupied,
}

/// What the player is told when a move is turned down: first the reason,
/// where there is a particular one, then that the move was not accepted.
pub open spec fn report_text(e: MoveError) -> Seq<char> {
    match e {
        MoveError::Malformed => "Invalid move\n"@,
        MoveError::InvalidPosition => "Invalid position\n"@ + "Invalid move\n"@,
        MoveError::Occupied => "Ocuupied cell!\n"@ + "Invalid move\n"@,
    }
}

impl MoveError {
    /// The lines that tell the player why the move was turned down.
    pub fn report(&self) -> (text: String)
        ensures
            text@ == report_text(*self),
    {
        let mut text = String::new();
        match self {
            MoveError::Malformed => {},
            MoveError::InvalidPosition => {
                text.append("Invalid position\n");
            },
            MoveError::Occupied => {
                text.append("Ocuupied cell!\n");
            },
        }
        text.append("Invalid move\n");
        assert(text@ =~= report_text(*self));
        text
    }
}

/// The nine squares, row by row, and the rules they are judged by.
#[derive(Clone, Copy, Debug)]
pub struct Board {
    pub b: [Cell; 9],
    pub rules: WinRule,
}

impl View for Board {
    type V = Seq<Cell>;

    open spec fn view(&self) -> Seq<Cell> {
        self.b@
    }
}

/// What becomes of grid `b` when mark `m` is put at keypad position `n`: the
/// new grid, or the reason why the move is turned down.
pub open spec fn placed(b: Seq<Cell>, n: int, m: C) -> Result<Seq<Cell>, MoveError> {
    match keypad_square(n) {
        None => Err(MoveError::InvalidPosition),
        Some(i) => if b[i] is Some {
            Err(MoveError::Occupied)
        } else {
            Ok(b.update(i, Some(m)))
        },
    }
}

/// The move that a line of input asks for: a keypad digit and the human's
/// mark. The line must start with a digit and `x` or `X`; what follows them
/// is not looked at.
pub open spec fn parsed_move(s: Seq<char>) -> Option<(int, C)> {
    if s.len() >= 2 && digit_value(s[0]) is Some && (s[1] == 'x' || s[1] == 'X') {
        Some((digit_value(s[0])->0, C::X))
    } else {
        None
    }
}

/// What becomes of grid `b` when the human enters the line `s`.
pub open spec fn played(b: Seq<Cell>, s: Seq<char>) -> Result<Seq<Cell>, MoveError> {
    match parsed_move(s) {
        None => Err(MoveError::Malformed),
        Some((n, m)) => placed(b, n, m),
    }
}

/// The empty squares among the first `n` squares of `b`, in rising order.
pub open spec fn empties_below(b: Seq<Cell>, n: int) -> Seq<int>
    decreases n,
{
    if n <= 0 {
        Seq::empty()
    } else if b[n - 1] is None {
        empties_below(b, n - 1).push(n - 1)
    } else {
        empties_below(b, n - 1)
    }
}

/// The empty squares of `b`, in rising order.
pub open spec fn empty_squares(b: Seq<Cell>) -> Seq<int> {
    empties_below(b, b.len() as int)
}

/// Whether every square of `b` holds a mark.
pub open spec fn full(b: Seq<Cell>) -> bool {
    forall|i: int| 0 <= i < b.len() ==> b[i] is Some
}

/// `empties_below(b, n)` lists exactly the empty squares below `n`, each
/// once, in rising order.
pub proof fn lemma_empties_below(b: Seq<Cell>, n: int)
    requires
        0 <= n <= b.len(),
    ensures
        empties_below(b, n).len() <= n,
        forall|k: int|
            0 <= k < empties_below(b, n).len() ==> 0 <= #[trigger] empties_below(b, n)[k] < n
                && b[empties_below(b, n)[k]] is None,
        forall|j: int, k: int|
            0 <= j < k < empties_below(b, n).len() ==> #[trigger] empties_below(b, n)[j]
                < #[trigger] empties_below(b, n)[k],
        forall|i: int|
            0 <= i < n && b[i] is None ==> #[trigger] empties_below(b, n).contains(i),
    decreases n,
{
    if n > 0 {
        lemma_empties_below(b, n - 1);
        let prev = empties_below(b, n - 1);
        let cur = empties_below(b, n);
        assert forall|i: int| 0 <= i < n && b[i] is None implies #[trigger] cur.contains(i) by {
            if i == n - 1 {
                assert(cur[cur.len() - 1] == i);
            } else {
                assert(prev.contains(i));
                let k = choose|k: int| 0 <= k < prev.len() && prev[k] == i;
                assert(cur[k] == i);
            }
        }
    }
}

/// A grid has an empty square exactly when it is not full.
pub proof fn lemma_empty_squares(b: Seq<Cell>)
    ensures
        empty_squares(b).len() <= b.len(),
        forall|k: int|
            0 <= k < empty_squares(b).len() ==> 0 <= #[trigger] empty_squares(b)[k] < b.len()
                && b[empty_squares(b)[k]] is None,
        empty_squares(b).len() == 0 <==> full(b),
{
    lemma_empties_below(b, b.len() as int);
    let e = empty_squares(b);
    if e.len() == 0 {
        assert forall|i: int| 0 <= i < b.len() implies b[i] is Some by {
            if b[i] is None {
                assert(e.contains(i));
            }
        }
    } else {
        assert(b[e[0]] is None);
    }
}

/// The empty squares below `n` open the list of those below any `m` from `n` up.
pub proof fn lemma_prefix_of_empties(b: Seq<Cell>, n: int, m: int)
    requires
        0 <= n <= m <= b.len(),
    ensures
        empties_below(b, n).len() <= empties_below(b, m).len(),
        forall|k: int|
            0 <= k < empties_below(b, n).len() ==> #[trigger] empties_below(b, m)[k]
                == empties_below(b, n)[k],
    decreases m - n,
{
    if n < m {
        lemma_prefix_of_empties(b, n, m - 1);
    }
}

/// Reads a move from the start of a line of input.
pub fn parse_move(line: &str) -> (r: Option<(u32, C)>)
    ensures
        match r {
            Some((n, m)) => parsed_move(line@) == Some((n as int, m)),
            None => parsed_move(line@) is None,
        },
{
    let len: usize = line.unicode_len();
    if len < 2 {
        return None;
    }
    let first: char = line.get_char(0);
    let second: char = line.get_char(1);
    match digit(first) {
        Some(n) => {
            if second == 'x' || second == 'X' {
                Some((n, C::X))
            } else {
                None
            }
        },
        None => None,
    }
}

impl Board {
    /// The empty grid.
    pub fn new() -> (board: Board)
        ensures
            board@.len() == 9,
            forall|i: int| 0 <= i < 9 ==> board@[i] is None,
    {
        Board { b: [None, None, None, None, None, None, None, None, None], rules: WinRule::new() }
    }

    /// Puts mark `choice` at keypad position `n`. The move is turned down,
    /// and the grid left as it was, where `n` is not one of 1 to 9 or the
    /// square is taken.
    pub fn set(&mut self, n: u32, choice: C) -> (r: Result<(), MoveError>)
        ensures
            match placed(old(self)@, n as int, choice) {
                Ok(next) => r is Ok && final(self)@ == next,
                Err(e) => r == Err::<(), MoveError>(e) && *final(self) == *old(self),
            },
    {
        let i: usize = match keypad_index(n) {
            Some(i) => i,
            None => {
                return Err(MoveError::InvalidPosition);
            },
        };
        if self.b[i].is_some() {
            return Err(MoveError::Occupied);
        }
        self.b[i] = Some(choice);
        Ok(())
    }

    /// The number of empty squares.
    pub fn count_empty(&self) -> (n: usize)
        ensures
            n == empty_squares(self@).len(),
            n <= 9,
            n == 0 <==> full(self@),
    {
        proof {
            lemma_empty_squares(self@);
        }
        let mut n: usize = 0;
        let mut i: usize = 0;
        while i < 9
            invariant
                i <= 9,
                n == empties_below(self@, i as int).len(),
                n <= i,
            decreases 9 - i,
        {
            if self.b[i].is_none() {
                n = n + 1;
            }
            i = i + 1;
        }
        n
    }

    /// Puts the computer's mark on an empty square: counting the empty
    /// squares from the top left, row by row, the one numbered `pick`
    /// modulo their count.
    pub fn bot_pick(&mut self, pick: usize)
        requires
            !full(old(self)@),
        ensures
            final(self)@ == old(self)@.update(
                empty_squares(old(self)@)[pick as int % empty_squares(old(self)@).len() as int],
                Some(C::O),
            ),
    {
        let available: usize = self.count_empty();
        let k: usize = pick % available;
        let mut seen: usize = 0;
        let mut i: usize = 0;
        proof {
            lemma_empties_below(self@, 9);
        }
        while i < 9
            invariant
                i <= 9,
                k < available,
                available == empties_below(self@, 9).len(),
                seen == empties_below(self@, i as int).len(),
                seen <= k,
                *self == *old(self),
                k == pick as int % empty_squares(old(self)@).len() as int,
            decreases 9 - i,
        {
            if self.b[i].is_none() {
                if seen == k {
                    assert(empties_below(self@, i as int + 1)[k as int] == i);
                    proof {
                        lemma_prefix_of_empties(self@, i as int + 1, 9);
                    }
                    self.b[i] = Some(C::O);
                    return ;
                }
                seen = seen + 1;
            }
            i = i + 1;
        }
    }

    /// The computer's turn: puts its mark on one of the empty squares. Which
    /// one is decided by the wall clock: the nanoseconds since the start of
    /// 1970, cut to the machine's word, are handed to [`Board::bot_pick`]; a
    /// clock that stands before 1970 counts as 0.
    pub fn bot_turn(&mut self)
        requires
            !full(old(self)@),
        ensures
            exists|k: int|
                0 <= k < empty_squares(old(self)@).len() && final(self)@ == old(self)@.update(
                    #[trigger] empty_squares(old(self)@)[k],
                    Some(C::O),
                ),
            exists|i: int|
                0 <= i < 9 && old(self)@[i] is None && final(self)@ == #[trigger] old(
                    self,
                )@.update(i, Some(C::O)),
    {
        let seed: usize = match since_epoch() {
            Ok(d) => {
                let nanos: u128 = d.as_nanos();
                #[verifier::truncate]
                (nanos as usize)
            },
            Err(_) => 0,
        };
        proof {
            lemma_empty_squares(self@);
        }
        self.bot_pick(seed);
        proof {
            let e = empty_squares(old(self)@);
            let k = seed as int % e.len() as int;
            assert(0 <= k < e.len());
            assert(final(self)@ == old(self)@.update(e[k], Some(C::O)));
            assert(old(self)@[e[k]] is None);
        }
    }

    /// Plays the move that the human typed as `line`. The move is turned down,
    /// and the grid left as it was, where the line does not start with a
    /// digit and `x` or `X`, the digit is `0`, or the square is taken. On a
    /// grid that is left as it was, `Err` says which of these it was.
    pub fn try_play(&mut self, line: &str) -> (r: Result<(), MoveError>)
        ensures
            match played(old(self)@, line@) {
                Ok(next) => r is Ok && final(self)@ == next,
                Err(e) => r == Err::<(), MoveError>(e) && *final(self) == *old(self),
            },
    {
        match parse_move(line) {
            Some((n, choice)) => self.set(n, choice),
            None => Err(MoveError::Malformed),
        }
    }
}

} // verus!
