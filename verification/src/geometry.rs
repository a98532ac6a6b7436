//! Geometry of the 32 dark squares of an 8×8 board.
//!
//! Squares are numbered 0..32 in reading order, four to a row. The dark
//! squares of an even row stand on the even files, those of an odd row on the
//! odd files:
//!
//! ```text
//!  0     1     2     3
//!     4     5     6     7
//!  8     9    10    11
//!    12    13    14    15
//! 16    17    18    19
//!    20    21    22    23
//! 24    25    26    27
//!    28    29    30    31
//! ```
//!
//! Everything here is stated over files and rows, so that "diagonal
//! neighbour" means what it means on a real board; the index arithmetic that
//! the executable code uses is proved against it.

use vstd::prelude::*;

verus! {

/// One of the four diagonal directions. "Down" is toward higher rows.
#[derive(Clone, Copy, Debug, PartialEq, Eq, Structural)]
pub enum Direction {
    DownLeft,
    UpLeft,
    DownRight,
    UpRight,
}

impl Direction {
    /// Change of file for one step in this direction.
    pub open spec fn file_delta(self) -> int {
        match self {
            Direction::DownLeft | Direction::UpLeft => -1,
            Direction::DownRight | Direction::UpRight => 1,
        }
    }

    /// Change of row for one step in this direction.
    pub open spec fn row_delta(self) -> int {
        match self {
            Direction::DownLeft | Direction::DownRight => 1,
            Direction::UpLeft | Direction::UpRight => -1,
        }
    }

    /// Whether this direction leads toward higher rows.
    pub open spec fn is_down(self) -> bool {
        self.row_delta() == 1
    }

    /// The opposite direction.
    pub open spec fn reversed(self) -> Direction {
        match self {
            Direction::DownLeft => Direction::UpRight,
            Direction::UpLeft => Direction::DownRight,
            Direction::DownRight => Direction::UpLeft,
            Direction::UpRight => Direction::DownLeft,
        }
    }
}

/// The square that `i` comes to lie on when the board is turned half round.
pub open spec fn turned(i: int) -> int {
    31 - i
}

/// The square, if any, that an optional square comes to lie on when the
/// board is turned half round.
pub open spec fn turned_option(square: Option<int>) -> Option<int> {
    match square {
        Some(i) => Some(turned(i)),
        None => None,
    }
}

/// Whether `i` numbers a playable square.
pub open spec fn on_board(i: int) -> bool {
    0 <= i < 32
}

/// Row (0 at the top) of square `i`.
pub open spec fn row_of(i: int) -> int {
    i / 4
}

/// File (0 at the left, 0..8) of square `i`.
pub open spec fn file_of(i: int) -> int {
    2 * (i % 4) + (i / 4) % 2
}

/// The playable square at the given file and row, if there is one.
pub open spec fn square_at(file: int, row: int) -> Option<int> {
    if 0 <= file < 8 && 0 <= row < 8 && file % 2 == row % 2 {
        Some(4 * row + file / 2)
    } else {
        None
    }
}

/// The square one diagonal step from `i` in direction `d`, if it is on the
/// board.
pub open spec fn adjacent(i: int, d: Direction) -> Option<int> {
    square_at(file_of(i) + d.file_delta(), row_of(i) + d.row_delta())
}

/// The square two diagonal steps from `i` in direction `d`, if it is on the
/// board.
pub open spec fn landing(i: int, d: Direction) -> Option<int> {
    square_at(file_of(i) + 2 * d.file_delta(), row_of(i) + 2 * d.row_delta())
}

/// Every square is the square at its own file and row.
pub proof fn lemma_square_at_own_coordinates(i: int)
    requires
        on_board(i),
    ensures
        square_at(file_of(i), row_of(i)) == Some(i),
        0 <= file_of(i) < 8,
        0 <= row_of(i) < 8,
{
}

/// A neighbour lies on the board, in the next row in the direction taken,
/// and differs from the square it was reached from.
pub proof fn lemma_adjacent_on_board(i: int, d: Direction)
    requires
        on_board(i),
    ensures
        adjacent(i, d) matches Some(t) ==> on_board(t) && t != i && row_of(t) == row_of(i)
            + d.row_delta() && file_of(t) == file_of(i) + d.file_delta(),
{
}

/// A landing square lies on the board two rows away, its neighbour in the
/// same direction lies between, and all three squares differ.
pub proof fn lemma_landing_on_board(i: int, d: Direction)
    requires
        on_board(i),
    ensures
        landing(i, d) matches Some(t) ==> on_board(t) && t != i && row_of(t) == row_of(i) + 2
            * d.row_delta() && file_of(t) == file_of(i) + 2 * d.file_delta() && (adjacent(i, d) matches Some(
            over,
        ) && over != i && over != t && adjacent(over, d) == Some(t)),
{
}

/// The square at the opposite file and row is the square at the file and
/// row, turned half round.
pub proof fn lemma_square_at_turned(file: int, row: int)
    ensures
        square_at(7 - file, 7 - row) == turned_option(square_at(file, row)),
{
    if 0 <= file < 8 && 0 <= row < 8 {
        assert((7 - file) / 2 == 3 - file / 2);
        assert((7 - file) % 2 == 1 - file % 2);
        assert((7 - row) % 2 == 1 - row % 2);
    }
}

/// Turning the board half round takes files and rows to their opposites.
pub proof fn lemma_turned_coordinates(i: int)
    requires
        on_board(i),
    ensures
        on_board(turned(i)),
        turned(turned(i)) == i,
        file_of(turned(i)) == 7 - file_of(i),
        row_of(turned(i)) == 7 - row_of(i),
{
    let r = i / 4;
    let c = i % 4;
    assert(31 - i == 4 * (7 - r) + (3 - c));
    assert((31 - i) / 4 == 7 - r);
    assert((31 - i) % 4 == 3 - c);
    assert((7 - r) % 2 == 1 - r % 2);
}

/// Turning the board half round takes neighbours in one direction to
/// neighbours in the opposite direction.
pub proof fn lemma_half_turn(i: int, d: Direction)
    requires
        on_board(i),
    ensures
        on_board(turned(i)),
        adjacent(turned(i), d.reversed()) == turned_option(adjacent(i, d)),
        landing(turned(i), d.reversed()) == turned_option(landing(i, d)),
        d.reversed().reversed() == d,
        d.reversed().is_down() != d.is_down(),
{
    lemma_turned_coordinates(i);
    lemma_square_at_turned(file_of(i) + d.file_delta(), row_of(i) + d.row_delta());
    lemma_square_at_turned(file_of(i) + 2 * d.file_delta(), row_of(i) + 2 * d.row_delta());
    assert(d.reversed().file_delta() == -d.file_delta());
    assert(d.reversed().row_delta() == -d.row_delta());
}

/// The squares that a leftward jump from `i` passes and reaches, by index.
/// A square has leftward jumps if it is not on the left edge of the board;
/// the squares lie 3 or 4 (down), 5 or 4 (up) places away for the piece
/// jumped, by the parity of the row, and 7 (down) or 9 (up) for the landing.
pub proof fn lemma_leftward_jumps(i: int)
    requires
        on_board(i),
    ensures
        (i + 7) % 8 < 3 ==> row_of(i) % 2 == 0 && file_of(i) >= 2,
        (i + 3) % 8 < 3 ==> row_of(i) % 2 == 1 && file_of(i) >= 2,
        !((i + 7) % 8 < 3) && !((i + 3) % 8 < 3) ==> file_of(i) < 2,
        landing(i, Direction::DownLeft) == if file_of(i) >= 2 && i < 24 {
            Some(i + 7)
        } else {
            None
        },
        landing(i, Direction::UpLeft) == if file_of(i) >= 2 && i >= 8 {
            Some(i - 9)
        } else {
            None
        },
        file_of(i) >= 2 && i < 24 ==> adjacent(i, Direction::DownLeft) == Some(
            if row_of(i) % 2 == 0 {
                i + 3
            } else {
                i + 4
            },
        ),
        file_of(i) >= 2 && i >= 8 ==> adjacent(i, Direction::UpLeft) == Some(
            if row_of(i) % 2 == 0 {
                i - 5
            } else {
                i - 4
            },
        ),
{
}

/// The squares that a rightward jump from `i` passes and reaches, by index.
/// A square has rightward jumps if it is not on the right edge of the board;
/// the squares lie 4 or 5 (down), 4 or 3 (up) places away for the piece
/// jumped, by the parity of the row, and 9 (down) or 7 (up) for the landing.
pub proof fn lemma_rightward_jumps(i: int)
    requires
        on_board(i),
    ensures
        i % 8 < 3 ==> row_of(i) % 2 == 0 && file_of(i) < 6,
        (i + 4) % 8 < 3 ==> row_of(i) % 2 == 1 && file_of(i) < 6,
        !(i % 8 < 3) && !((i + 4) % 8 < 3) ==> file_of(i) >= 6,
        landing(i, Direction::DownRight) == if file_of(i) < 6 && i < 24 {
            Some(i + 9)
        } else {
            None
        },
        landing(i, Direction::UpRight) == if file_of(i) < 6 && i >= 8 {
            Some(i - 7)
        } else {
            None
        },
        file_of(i) < 6 && i < 24 ==> adjacent(i, Direction::DownRight) == Some(
            if row_of(i) % 2 == 0 {
                i + 4
            } else {
                i + 5
            },
        ),
        file_of(i) < 6 && i >= 8 ==> adjacent(i, Direction::UpRight) == Some(
            if row_of(i) % 2 == 0 {
                i - 4
            } else {
                i - 3
            },
        ),
{
}

/// The squares one step from `i`, by index. From an even row they lie 3
/// (left) and 4 (right) places on and 5 (left) and 4 (right) places back;
/// from an odd row 4 (left) and 5 (right) places on and 4 (left) and 3
/// (right) places back.
pub proof fn lemma_steps(i: int)
    requires
        on_board(i),
    ensures
        (i + 7) % 8 < 3 <==> row_of(i) % 2 == 0 && file_of(i) >= 2,
        (i + 4) % 8 < 3 <==> row_of(i) % 2 == 1 && file_of(i) < 6,
        row_of(i) % 2 == 0 ==> {
            &&& i < 28
            &&& adjacent(i, Direction::DownLeft) == if file_of(i) >= 2 {
                Some(i + 3)
            } else {
                None
            }
            &&& adjacent(i, Direction::UpLeft) == if file_of(i) >= 2 && i > 8 {
                Some(i - 5)
            } else {
                None
            }
            &&& adjacent(i, Direction::DownRight) == Some(i + 4)
            &&& adjacent(i, Direction::UpRight) == if i >= 4 {
                Some(i - 4)
            } else {
                None
            }
        },
        row_of(i) % 2 == 1 ==> {
            &&& i >= 4
            &&& adjacent(i, Direction::DownRight) == if file_of(i) < 6 && i < 28 {
                Some(i + 5)
            } else {
                None
            }
            &&& adjacent(i, Direction::UpRight) == if file_of(i) < 6 {
                Some(i - 3)
            } else {
                None
            }
            &&& adjacent(i, Direction::DownLeft) == if i < 28 {
                Some(i + 4)
            } else {
                None
            }
            &&& adjacent(i, Direction::UpLeft) == Some(i - 4)
        },
{
}

} // verus!
