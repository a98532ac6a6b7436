//! The mathematical model of a checkers position and of the rules of play.
//!
//! A [`Position`] is what the executable state stands for: the 32 squares as
//! a sequence, the side to move, the square a multi-jump continues from, and
//! the recorded winner. The rules are stated here twice. Declaratively:
//! [`Position::can_step`], [`Position::can_capture`] and
//! [`Position::is_legal`] say when a move is allowed. Constructively:
//! [`Position::legal_moves`] lists the allowed moves in the order in which
//! they are enumerated. The two are proved to agree.

use vstd::prelude::*;
use crate::checkers::Piece;
use crate::geometry::{adjacent, landing, on_board, row_of, Direction};

verus! {

/// A move: the square left, the square reached, and the square of the piece
/// jumped over, if the move is a capture.
pub type Move = (usize, usize, Option<usize>);

/// Number of pieces of one side on a board, men and kings alike.
pub open spec fn pieces(board: Seq<Option<Piece>>, o_side: bool) -> nat
    decreases board.len(),
{
    if board.len() == 0 {
        0
    } else {
        pieces(board.drop_last(), o_side) + if (board.last() matches Some(p) && p.is_o()
            == o_side) {
            1nat
        } else {
            0nat
        }
    }
}

/// The board with the man on `at` made a king, if `at` lies in the far row
/// of the man's side: the top row for O, the bottom row for X.
pub open spec fn crowned(board: Seq<Option<Piece>>, at: int) -> Seq<Option<Piece>> {
    if (board[at] matches Some(p) && p.is_o()) && at < 4 {
        board.update(at, Some(Piece::OKing))
    } else if (board[at] matches Some(p) && p.is_x()) && at >= 28 {
        board.update(at, Some(Piece::XKing))
    } else {
        board
    }
}

/// Who has won on a board: nobody while both sides have pieces, else the
/// side that has any, and X on an empty board.
pub open spec fn decided(board: Seq<Option<Piece>>) -> Option<bool> {
    if pieces(board, false) > 0 && pieces(board, true) > 0 {
        None
    } else {
        Some(pieces(board, true) > 0)
    }
}

/// Counting one square further adds what that square holds.
pub proof fn lemma_pieces_take_next(board: Seq<Option<Piece>>, i: int, o_side: bool)
    requires
        0 <= i < board.len(),
    ensures
        pieces(board.take(i + 1), o_side) == pieces(board.take(i), o_side) + if (
        board[i] matches Some(p) && p.is_o() == o_side) {
            1nat
        } else {
            0nat
        },
        pieces(board.take(0), o_side) == 0,
        board.take(board.len() as int) == board,
{
    assert(board.take(i + 1).drop_last() == board.take(i));
}

/// A longer stretch of the board holds no fewer pieces.
pub proof fn lemma_pieces_monotone(board: Seq<Option<Piece>>, i: int, o_side: bool)
    requires
        0 <= i <= board.len(),
    ensures
        pieces(board.take(i), o_side) <= pieces(board, o_side),
    decreases board.len() - i,
{
    if i < board.len() {
        lemma_pieces_take_next(board, i, o_side);
        lemma_pieces_monotone(board, i + 1, o_side);
    } else {
        assert(board.take(i) == board);
    }
}

/// The count of a side is the first square's share and the count of the
/// rest.
pub proof fn lemma_pieces_first(board: Seq<Option<Piece>>, o_side: bool)
    requires
        board.len() > 0,
    ensures
        pieces(board, o_side) == pieces(board.drop_first(), o_side) + if (
        board[0] matches Some(p) && p.is_o() == o_side) {
            1nat
        } else {
            0nat
        },
    decreases board.len(),
{
    if board.len() == 1 {
        assert(board.drop_first() == board.drop_last());
    } else {
        lemma_pieces_first(board.drop_last(), o_side);
        assert(board.drop_last().drop_first() == board.drop_first().drop_last());
    }
}

/// No side has more pieces than the board has squares.
pub proof fn lemma_pieces_bounded(board: Seq<Option<Piece>>, o_side: bool)
    ensures
        pieces(board, o_side) <= board.len(),
    decreases board.len(),
{
    if board.len() > 0 {
        lemma_pieces_bounded(board.drop_last(), o_side);
    }
}

/// The content of a square with the sides exchanged: a man for a man, a
/// king for a king.
pub open spec fn exchanged(cell: Option<Piece>) -> Option<Piece> {
    match cell {
        None => None,
        Some(Piece::X) => Some(Piece::O),
        Some(Piece::O) => Some(Piece::X),
        Some(Piece::XKing) => Some(Piece::OKing),
        Some(Piece::OKing) => Some(Piece::XKing),
    }
}

/// The board seen from the other side: turned half round, so that the last
/// square comes first, and with the sides exchanged.
pub open spec fn mirrored(board: Seq<Option<Piece>>) -> Seq<Option<Piece>> {
    Seq::new(board.len(), |i: int| exchanged(board[board.len() - 1 - i]))
}

/// Where the piece that stands on `k` stands after `m`: on the square
/// reached if it is the piece that moves, nowhere if it is the piece
/// captured, else where it stood.
pub open spec fn follow(m: Move, k: int) -> Option<int> {
    if k == m.0 {
        Some(m.1 as int)
    } else if m.2 == Some(k as usize) {
        None
    } else {
        Some(k)
    }
}

/// Where the piece that stands on `k` stands after the moves of `line`, if
/// none of them captures it.
pub open spec fn follow_line(line: Seq<Move>, k: int) -> Option<int>
    decreases line.len(),
{
    if line.len() == 0 {
        Some(k)
    } else {
        match follow(line[0], k) {
            Some(next) => follow_line(line.drop_first(), next),
            None => None,
        }
    }
}

/// A checkers position.
pub struct Position {
    /// The 32 playable squares, in reading order.
    pub board: Seq<Option<Piece>>,
    /// Whether the O side (which moves up the board) has the turn.
    pub o_to_move: bool,
    /// The square from which a multi-jump must be continued, if one is under
    /// way.
    pub mid_jump: Option<usize>,
    /// The recorded winner: `Some(true)` for O, `Some(false)` for X.
    pub winner: Option<bool>,
}

impl Position {
    /// The invariant of a position: 32 squares, and a multi-jump, if one is
    /// under way, continues from a square that holds a piece of the side to
    /// move, which has a capture from there.
    pub open spec fn valid(self) -> bool {
        &&& self.board.len() == 32
        &&& self.mid_jump matches Some(from) ==> on_board(from as int) && self.owns(from as int)
            && self.captures_from(from as int).len() > 0
    }

    /// Whether square `i` holds a piece of the side to move.
    pub open spec fn owns(self, i: int) -> bool {
        self.board[i] matches Some(p) && p.is_o() == self.o_to_move
    }

    /// Whether square `i` holds a piece of the side that is not to move.
    pub open spec fn holds_enemy(self, i: int) -> bool {
        self.board[i] matches Some(p) && p.is_x() == self.o_to_move
    }

    /// Whether the piece on `from` may take one step in direction `d`: the
    /// piece may travel that way and the neighbouring square is empty.
    pub open spec fn can_step(self, from: int, d: Direction) -> bool {
        &&& on_board(from)
        &&& self.board[from] matches Some(p)
        &&& p.may_travel(d)
        &&& adjacent(from, d) matches Some(to)
        &&& self.board[to] is None
    }

    /// Whether the piece on `from` may capture in direction `d`: the piece
    /// may travel that way, the neighbouring square holds a piece of the side
    /// that is not to move, and the square beyond it is empty.
    pub open spec fn can_capture(self, from: int, d: Direction) -> bool {
        &&& on_board(from)
        &&& self.board[from] matches Some(p)
        &&& p.may_travel(d)
        &&& adjacent(from, d) matches Some(over)
        &&& landing(from, d) matches Some(to)
        &&& self.holds_enemy(over)
        &&& self.board[to] is None
    }

    /// The step from `from` in direction `d`.
    pub open spec fn step_move(from: int, d: Direction) -> Move {
        (from as usize, adjacent(from, d).unwrap() as usize, None)
    }

    /// The capture from `from` in direction `d`.
    pub open spec fn capture_move(from: int, d: Direction) -> Move {
        (from as usize, landing(from, d).unwrap() as usize, Some(adjacent(from, d).unwrap() as usize))
    }

    /// The capture from `from` in direction `d`, if it is allowed.
    pub open spec fn captures_toward(self, from: int, d: Direction) -> Seq<Move> {
        if self.can_capture(from, d) {
            seq![Self::capture_move(from, d)]
        } else {
            Seq::empty()
        }
    }

    /// The step from `from` in direction `d`, if it is allowed.
    pub open spec fn steps_toward(self, from: int, d: Direction) -> Seq<Move> {
        if self.can_step(from, d) {
            seq![Self::step_move(from, d)]
        } else {
            Seq::empty()
        }
    }

    /// The captures allowed from `from`, leftward before rightward and, on
    /// each side, downward before upward.
    pub open spec fn captures_from(self, from: int) -> Seq<Move> {
        self.captures_toward(from, Direction::DownLeft) + self.captures_toward(
            from,
            Direction::UpLeft,
        ) + self.captures_toward(from, Direction::DownRight) + self.captures_toward(
            from,
            Direction::UpRight,
        )
    }

    /// The steps allowed from `from`, downward before upward on each side.
    /// From an even row the left side comes first, from an odd row the right
    /// side.
    pub open spec fn steps_from(self, from: int) -> Seq<Move> {
        let left = self.steps_toward(from, Direction::DownLeft) + self.steps_toward(
            from,
            Direction::UpLeft,
        );
        let right = self.steps_toward(from, Direction::DownRight) + self.steps_toward(
            from,
            Direction::UpRight,
        );
        if row_of(from) % 2 == 0 {
            left + right
        } else {
            right + left
        }
    }

    /// The captures allowed to the pieces of the side to move that stand on
    /// the squares below `n`, square by square.
    pub open spec fn captures_below(self, n: nat) -> Seq<Move>
        decreases n,
    {
        if n == 0 {
            Seq::empty()
        } else if self.owns(n - 1) {
            self.captures_below((n - 1) as nat) + self.captures_from(n - 1)
        } else {
            self.captures_below((n - 1) as nat)
        }
    }

    /// The steps allowed to the pieces of the side to move that stand on the
    /// squares below `n`, square by square.
    pub open spec fn steps_below(self, n: nat) -> Seq<Move>
        decreases n,
    {
        if n == 0 {
            Seq::empty()
        } else if self.owns(n - 1) {
            self.steps_below((n - 1) as nat) + self.steps_from(n - 1)
        } else {
            self.steps_below((n - 1) as nat)
        }
    }

    /// The legal moves, in enumeration order. In the middle of a multi-jump
    /// they are the captures from the square reached; otherwise all captures
    /// of the side to move, or, where it has none, all its steps.
    pub open spec fn legal_moves(self) -> Seq<Move> {
        match self.mid_jump {
            Some(from) => self.captures_from(from as int),
            None => {
                let captures = self.captures_below(32);
                if captures.len() > 0 {
                    captures
                } else {
                    self.steps_below(32)
                }
            },
        }
    }

    /// The material balance: the pieces of X less the pieces of O.
    pub open spec fn evaluation(self) -> int {
        pieces(self.board, false) - pieces(self.board, true)
    }

    /// Whether `m` can be played at all: its squares are on the board, it
    /// leaves its square for another, a piece stands on the square left, and
    /// that piece is not the one captured.
    pub open spec fn accepts(self, m: Move) -> bool {
        &&& on_board(m.0 as int)
        &&& on_board(m.1 as int)
        &&& m.0 != m.1
        &&& self.board[m.0 as int] is Some
        &&& m.2 matches Some(over) ==> on_board(over as int) && over != m.0
    }

    /// The board after `m`: the captured piece, if any, is lifted, the
    /// moving piece goes to its new square and is crowned there if that is
    /// its far row.
    pub open spec fn board_after(self, m: Move) -> Seq<Option<Piece>> {
        let lifted = match m.2 {
            Some(over) => self.board.update(over as int, None),
            None => self.board,
        };
        let moved = lifted.update(m.1 as int, lifted[m.0 as int]).update(m.0 as int, None);
        crowned(moved, m.1 as int)
    }

    /// Whether `m` is a capture after which the same piece can capture
    /// again, so that the turn does not pass.
    pub open spec fn continues_after(self, m: Move) -> bool {
        m.2 is Some && (Position {
            board: self.board_after(m),
            o_to_move: self.o_to_move,
            mid_jump: None,
            winner: self.winner,
        }).captures_from(m.1 as int).len() > 0
    }

    /// The position after `m`. After a capture that the same piece can
    /// follow with another, the side to move stays and the multi-jump
    /// continues from the square reached; otherwise the turn passes and no
    /// multi-jump is under way. The recorded winner is left as it is.
    pub open spec fn successor(self, m: Move) -> Position {
        if self.continues_after(m) {
            Position {
                board: self.board_after(m),
                o_to_move: self.o_to_move,
                mid_jump: Some(m.1),
                winner: self.winner,
            }
        } else {
            Position {
                board: self.board_after(m),
                o_to_move: !self.o_to_move,
                mid_jump: None,
                winner: self.winner,
            }
        }
    }

    /// Whether `m` is a capture that the rules allow to the piece on its
    /// square of departure.
    pub open spec fn is_capture(self, m: Move) -> bool {
        exists|d: Direction| #[trigger]
            self.can_capture(m.0 as int, d) && m == Self::capture_move(m.0 as int, d)
    }

    /// Whether `m` is a step that the rules allow to the piece on its square
    /// of departure.
    pub open spec fn is_step(self, m: Move) -> bool {
        exists|d: Direction| #[trigger]
            self.can_step(m.0 as int, d) && m == Self::step_move(m.0 as int, d)
    }

    /// Whether some piece of the side to move can capture.
    pub open spec fn capture_available(self) -> bool {
        exists|i: int, d: Direction| self.owns(i) && #[trigger] self.can_capture(i, d)
    }

    /// Whether `m` is legal. In the middle of a multi-jump only captures by
    /// the piece that is jumping are; otherwise a move must be made with a
    /// piece of the side to move, and must be a capture if that side has one.
    pub open spec fn is_legal(self, m: Move) -> bool {
        match self.mid_jump {
            Some(from) => m.0 == from && self.is_capture(m),
            None => self.owns(m.0 as int) && if self.capture_available() {
                self.is_capture(m)
            } else {
                self.is_step(m)
            },
        }
    }

    /// The position seen from the other side: the board mirrored, the turn
    /// with the other side, and a multi-jump under way continued from the
    /// mirrored square.
    pub open spec fn mirrored(self) -> Position {
        Position {
            board: mirrored(self.board),
            o_to_move: !self.o_to_move,
            mid_jump: match self.mid_jump {
                Some(from) => Some((31 - from) as usize),
                None => None,
            },
            winner: match self.winner {
                Some(o_won) => Some(!o_won),
                None => None,
            },
        }
    }

    /// The evaluation of a board of 32 squares lies between -32 and 32.
    pub proof fn lemma_evaluation_bounded(self)
        requires
            self.board.len() == 32,
        ensures
            -32 <= self.evaluation() <= 32,
    {
        lemma_pieces_bounded(self.board, true);
        lemma_pieces_bounded(self.board, false);
    }

    /// The position with the winner recorded that the board shows.
    pub open spec fn judged(self) -> Position {
        Position { winner: decided(self.board), ..self }
    }

    /// The position with the turn passed to the other side without a move.
    pub open spec fn passed(self) -> Position {
        Position { o_to_move: !self.o_to_move, ..self }
    }

    /// Whether the moves of `line` can be played one after the other, each
    /// being legal where it is played.
    pub open spec fn playable(self, line: Seq<Move>) -> bool
        decreases line.len(),
    {
        line.len() == 0 || (self.legal_moves().contains(line[0]) && self.successor(
            line[0],
        ).playable(line.drop_first()))
    }

    /// The position after the moves of `line` are played one after the
    /// other.
    pub open spec fn after_line(self, line: Seq<Move>) -> Position
        decreases line.len(),
    {
        if line.len() == 0 {
            self
        } else {
            self.successor(line[0]).after_line(line.drop_first())
        }
    }

    /// The number of captures in `line` that are made while the side given
    /// has the turn.
    pub open spec fn captures_in(self, line: Seq<Move>, o_side: bool) -> nat
        decreases line.len(),
    {
        if line.len() == 0 {
            0
        } else {
            self.successor(line[0]).captures_in(line.drop_first(), o_side) + if line[0].2 is Some
                && self.o_to_move == o_side {
                1nat
            } else {
                0nat
            }
        }
    }
}

} // verus!
