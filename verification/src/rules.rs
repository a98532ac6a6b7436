//! What holds of the rules of checkers: the enumeration of moves lists
//! exactly the legal moves, captures are mandatory, a multi-jump is
//! continued by the same piece, pieces are conserved, and kings stay kings.

use vstd::prelude::*;
use crate::checkers::Piece;
use crate::geometry::{lemma_adjacent_on_board, lemma_landing_on_board, on_board, Direction};
use crate::position::{crowned, follow, follow_line, pieces, Move, Position};

verus! {

/// A value occurs in a concatenation if it occurs in one of its parts.
pub proof fn lemma_contains_add<A>(a: Seq<A>, b: Seq<A>, x: A)
    ensures
        (a + b).contains(x) <==> a.contains(x) || b.contains(x),
{
    if a.contains(x) {
        let i = choose|i: int| 0 <= i < a.len() && a[i] == x;
        assert((a + b)[i] == x);
    }
    if b.contains(x) {
        let i = choose|i: int| 0 <= i < b.len() && b[i] == x;
        assert((a + b)[a.len() + i] == x);
    }
    if (a + b).contains(x) {
        let i = choose|i: int| 0 <= i < (a + b).len() && (a + b)[i] == x;
        if i < a.len() {
            assert(a[i] == x);
        } else {
            assert(b[i - a.len()] == x);
        }
    }
}

/// The captures listed toward one direction are the capture in that
/// direction, if it is allowed.
pub proof fn lemma_captures_toward_members(p: Position, from: int, d: Direction, m: Move)
    ensures
        p.captures_toward(from, d).contains(m) <==> p.can_capture(from, d) && m
            == Position::capture_move(from, d),
{
    if p.can_capture(from, d) {
        assert(p.captures_toward(from, d)[0] == Position::capture_move(from, d));
    }
}

/// The steps listed toward one direction are the step in that direction, if
/// it is allowed.
pub proof fn lemma_steps_toward_members(p: Position, from: int, d: Direction, m: Move)
    ensures
        p.steps_toward(from, d).contains(m) <==> p.can_step(from, d) && m == Position::step_move(
            from,
            d,
        ),
{
    if p.can_step(from, d) {
        assert(p.steps_toward(from, d)[0] == Position::step_move(from, d));
    }
}

/// The captures listed from a square are exactly the captures allowed to the
/// piece on it.
pub proof fn lemma_captures_from_members(p: Position, from: int, m: Move)
    requires
        on_board(from),
    ensures
        p.captures_from(from).contains(m) <==> m.0 == from && p.is_capture(m),
{
    let a = p.captures_toward(from, Direction::DownLeft);
    let b = p.captures_toward(from, Direction::UpLeft);
    let c = p.captures_toward(from, Direction::DownRight);
    let d = p.captures_toward(from, Direction::UpRight);
    lemma_contains_add(a + b + c, d, m);
    lemma_contains_add(a + b, c, m);
    lemma_contains_add(a, b, m);
    lemma_captures_toward_members(p, from, Direction::DownLeft, m);
    lemma_captures_toward_members(p, from, Direction::UpLeft, m);
    lemma_captures_toward_members(p, from, Direction::DownRight, m);
    lemma_captures_toward_members(p, from, Direction::UpRight, m);
    if p.captures_from(from).contains(m) {
        assert(m.0 == from);
        assert(p.is_capture(m));
    }
    if m.0 == from && p.is_capture(m) {
        let dir = choose|dir: Direction| #[trigger]
            p.can_capture(m.0 as int, dir) && m == Position::capture_move(m.0 as int, dir);
        match dir {
            Direction::DownLeft => {},
            Direction::UpLeft => {},
            Direction::DownRight => {},
            Direction::UpRight => {},
        }
    }
}

/// The steps listed from a square are exactly the steps allowed to the piece
/// on it.
pub proof fn lemma_steps_from_members(p: Position, from: int, m: Move)
    requires
        on_board(from),
    ensures
        p.steps_from(from).contains(m) <==> m.0 == from && p.is_step(m),
{
    let a = p.steps_toward(from, Direction::DownLeft);
    let b = p.steps_toward(from, Direction::UpLeft);
    let c = p.steps_toward(from, Direction::DownRight);
    let d = p.steps_toward(from, Direction::UpRight);
    lemma_contains_add(a + b, c + d, m);
    lemma_contains_add(c + d, a + b, m);
    lemma_contains_add(a, b, m);
    lemma_contains_add(c, d, m);
    lemma_steps_toward_members(p, from, Direction::DownLeft, m);
    lemma_steps_toward_members(p, from, Direction::UpLeft, m);
    lemma_steps_toward_members(p, from, Direction::DownRight, m);
    lemma_steps_toward_members(p, from, Direction::UpRight, m);
    if p.steps_from(from).contains(m) {
        assert(m.0 == from);
        assert(p.is_step(m));
    }
    if m.0 == from && p.is_step(m) {
        let dir = choose|dir: Direction| #[trigger]
            p.can_step(m.0 as int, dir) && m == Position::step_move(m.0 as int, dir);
        match dir {
            Direction::DownLeft => {},
            Direction::UpLeft => {},
            Direction::DownRight => {},
            Direction::UpRight => {},
        }
    }
}

/// The captures listed for the squares below `n` are exactly the captures
/// allowed to the pieces of the side to move on those squares.
pub proof fn lemma_captures_below_members(p: Position, n: nat, m: Move)
    requires
        n <= 32,
    ensures
        p.captures_below(n).contains(m) <==> m.0 < n && p.owns(m.0 as int) && p.is_capture(m),
    decreases n,
{
    if n > 0 {
        lemma_captures_below_members(p, (n - 1) as nat, m);
        lemma_captures_from_members(p, n - 1, m);
        if p.owns(n - 1) {
            lemma_contains_add(p.captures_below((n - 1) as nat), p.captures_from(n - 1), m);
        }
    }
}

/// The steps listed for the squares below `n` are exactly the steps allowed
/// to the pieces of the side to move on those squares.
pub proof fn lemma_steps_below_members(p: Position, n: nat, m: Move)
    requires
        n <= 32,
    ensures
        p.steps_below(n).contains(m) <==> m.0 < n && p.owns(m.0 as int) && p.is_step(m),
    decreases n,
{
    if n > 0 {
        lemma_steps_below_members(p, (n - 1) as nat, m);
        lemma_steps_from_members(p, n - 1, m);
        if p.owns(n - 1) {
            lemma_contains_add(p.steps_below((n - 1) as nat), p.steps_from(n - 1), m);
        }
    }
}

/// Some capture is listed for the side to move exactly when some piece of
/// that side can capture.
pub proof fn lemma_captures_listed_iff_available(p: Position)
    ensures
        p.captures_below(32).len() > 0 <==> p.capture_available(),
{
    if p.captures_below(32).len() > 0 {
        let m = p.captures_below(32)[0];
        lemma_captures_below_members(p, 32, m);
        let d = choose|d: Direction| #[trigger]
            p.can_capture(m.0 as int, d) && m == Position::capture_move(m.0 as int, d);
        assert(p.owns(m.0 as int) && p.can_capture(m.0 as int, d));
    }
    if p.capture_available() {
        let (i, d) = choose|i: int, d: Direction| p.owns(i) && #[trigger] p.can_capture(i, d);
        let m = Position::capture_move(i, d);
        assert(p.can_capture(m.0 as int, d) && m == Position::capture_move(m.0 as int, d));
        lemma_captures_below_members(p, 32, m);
        assert(p.captures_below(32).contains(m));
    }
}

/// The enumeration lists exactly the legal moves.
pub proof fn lemma_legal_moves_members(p: Position, m: Move)
    requires
        p.valid(),
    ensures
        p.legal_moves().contains(m) <==> p.is_legal(m),
{
    match p.mid_jump {
        Some(from) => {
            lemma_captures_from_members(p, from as int, m);
        },
        None => {
            lemma_captures_listed_iff_available(p);
            lemma_captures_below_members(p, 32, m);
            lemma_steps_below_members(p, 32, m);
            if p.is_step(m) {
                let d = choose|d: Direction| #[trigger]
                    p.can_step(m.0 as int, d) && m == Position::step_move(m.0 as int, d);
                assert(m.0 < 32);
            }
            if p.is_capture(m) {
                let d = choose|d: Direction| #[trigger]
                    p.can_capture(m.0 as int, d) && m == Position::capture_move(m.0 as int, d);
                assert(m.0 < 32);
            }
        },
    }
}

/// Between two squares there is at most one legal move.
pub proof fn lemma_legal_move_unique(p: Position, m1: Move, m2: Move)
    requires
        p.valid(),
        p.is_legal(m1),
        p.is_legal(m2),
        m1.0 == m2.0,
        m1.1 == m2.1,
    ensures
        m1 == m2,
{
    if p.is_capture(m1) && p.is_capture(m2) {
        let d1 = choose|d: Direction| #[trigger]
            p.can_capture(m1.0 as int, d) && m1 == Position::capture_move(m1.0 as int, d);
        let d2 = choose|d: Direction| #[trigger]
            p.can_capture(m2.0 as int, d) && m2 == Position::capture_move(m2.0 as int, d);
        lemma_landing_on_board(m1.0 as int, d1);
        lemma_landing_on_board(m1.0 as int, d2);
        assert(d1.file_delta() == d2.file_delta());
        assert(d1.row_delta() == d2.row_delta());
        assert(d1 == d2);
    }
}

/// Captures are mandatory: where some piece of the side to move can
/// capture, every legal move is a capture.
pub proof fn lemma_mandatory_capture(p: Position, m: Move)
    requires
        p.valid(),
        p.capture_available(),
        p.legal_moves().contains(m),
    ensures
        m.2 is Some,
        p.is_capture(m),
{
    lemma_legal_moves_members(p, m);
}

/// A multi-jump is continued by the piece that began it: while one is under
/// way, every legal move is a capture that leaves from the square reached.
pub proof fn lemma_single_piece_continuation(p: Position, m: Move)
    requires
        p.valid(),
        p.mid_jump is Some,
        p.legal_moves().contains(m),
    ensures
        Some(m.0) == p.mid_jump,
        m.2 is Some,
        p.is_capture(m),
{
    lemma_legal_moves_members(p, m);
}

/// What a legal move looks like on the board: it is made with a piece of
/// the side to move, to an empty square of the board other than its own;
/// a capture jumps a piece of the other side that stands on a third square.
pub proof fn lemma_legal_move_shape(p: Position, m: Move)
    requires
        p.valid(),
        p.legal_moves().contains(m),
    ensures
        on_board(m.0 as int),
        on_board(m.1 as int),
        m.0 != m.1,
        p.owns(m.0 as int),
        p.board[m.1 as int] is None,
        m.2 matches Some(over) ==> on_board(over as int) && over != m.0 && over != m.1
            && p.holds_enemy(over as int),
        m.2 is Some <==> p.is_capture(m),
        m.2 is None <==> p.is_step(m),
{
    lemma_legal_moves_members(p, m);
    if p.is_capture(m) {
        let d = choose|d: Direction| #[trigger]
            p.can_capture(m.0 as int, d) && m == Position::capture_move(m.0 as int, d);
        lemma_landing_on_board(m.0 as int, d);
    }
    if p.is_step(m) {
        let d = choose|d: Direction| #[trigger]
            p.can_step(m.0 as int, d) && m == Position::step_move(m.0 as int, d);
        lemma_adjacent_on_board(m.0 as int, d);
    }
}

/// After a move that can be played, the board has its 32 squares and the
/// piece that moved, or the king it has become, stands on the square
/// reached.
pub proof fn lemma_board_after_mover(p: Position, m: Move)
    requires
        p.board.len() == 32,
        p.accepts(m),
    ensures
        p.board_after(m).len() == 32,
        p.board_after(m)[m.1 as int] is Some,
        p.board_after(m)[m.1 as int].unwrap().is_o() == p.board[m.0 as int].unwrap().is_o(),
{
    let lifted = match m.2 {
        Some(over) => p.board.update(over as int, None),
        None => p.board,
    };
    assert(lifted[m.0 as int] == p.board[m.0 as int]);
    let moved = lifted.update(m.1 as int, lifted[m.0 as int]).update(m.0 as int, None);
    assert(moved[m.1 as int] == p.board[m.0 as int]);
}

/// A legal move can be played, and leads from a valid position to a valid
/// position.
pub proof fn lemma_legal_move_keeps_valid(p: Position, m: Move)
    requires
        p.valid(),
        p.legal_moves().contains(m),
    ensures
        p.accepts(m),
        p.successor(m).valid(),
{
    lemma_legal_move_shape(p, m);
    lemma_board_after_mover(p, m);
    if p.continues_after(m) {
        let landed = Position {
            board: p.board_after(m),
            o_to_move: p.o_to_move,
            mid_jump: None,
            winner: p.winner,
        };
        assert(p.successor(m).captures_from(m.1 as int) == landed.captures_from(m.1 as int));
        assert(p.successor(m).owns(m.1 as int));
    }
}

/// Replacing the content of one square changes the count of a side by what
/// was taken off and what was put on.
pub proof fn lemma_pieces_update(
    board: Seq<Option<Piece>>,
    i: int,
    cell: Option<Piece>,
    o_side: bool,
)
    requires
        0 <= i < board.len(),
    ensures
        pieces(board.update(i, cell), o_side) == pieces(board, o_side) - counts(board[i], o_side)
            + counts(cell, o_side),
    decreases board.len(),
{
    let after = board.update(i, cell);
    if i == board.len() - 1 {
        assert(after.drop_last() == board.drop_last());
    } else {
        assert(after.drop_last() == board.drop_last().update(i, cell));
        lemma_pieces_update(board.drop_last(), i, cell, o_side);
    }
}

/// What one square adds to the count of a side: 1 if it holds a piece of
/// that side, else 0.
pub open spec fn counts(cell: Option<Piece>, o_side: bool) -> int {
    if (cell matches Some(p) && p.is_o() == o_side) {
        1
    } else {
        0
    }
}

/// Crowning changes no count.
pub proof fn lemma_pieces_crowned(board: Seq<Option<Piece>>, at: int, o_side: bool)
    requires
        0 <= at < board.len(),
    ensures
        pieces(crowned(board, at), o_side) == pieces(board, o_side),
{
    lemma_pieces_update(board, at, Some(Piece::OKing), o_side);
    lemma_pieces_update(board, at, Some(Piece::XKing), o_side);
}

/// Pieces are conserved: a legal move leaves the count of each side as it
/// was, but that a capture takes one piece from the side that did not move.
pub proof fn lemma_piece_conservation(p: Position, m: Move, o_side: bool)
    requires
        p.valid(),
        p.legal_moves().contains(m),
    ensures
        pieces(p.successor(m).board, o_side) == pieces(p.board, o_side) - if m.2 is Some && o_side
            != p.o_to_move {
            1int
        } else {
            0int
        },
        m.2 matches Some(over) ==> p.board[over as int] is Some && p.board[over as int].unwrap().is_o()
            != p.o_to_move,
{
    lemma_legal_move_shape(p, m);
    let from = m.0 as int;
    let to = m.1 as int;
    let lifted = match m.2 {
        Some(over) => p.board.update(over as int, None),
        None => p.board,
    };
    if let Some(over) = m.2 {
        lemma_pieces_update(p.board, over as int, None, o_side);
    }
    let placed = lifted.update(to, lifted[from]);
    lemma_pieces_update(lifted, to, lifted[from], o_side);
    let moved = placed.update(from, None);
    lemma_pieces_update(placed, from, None, o_side);
    lemma_pieces_crowned(moved, to, o_side);
}

/// No move makes a man of a king: after a legal move, a man stands only
/// where the same man stood before, or where the same man has just moved
/// to; and the piece that moved, if it was a king, is the same king still.
pub proof fn lemma_promotion_permanent(p: Position, m: Move, k: int)
    requires
        p.valid(),
        p.legal_moves().contains(m),
        on_board(k),
    ensures
        p.successor(m).board[k] matches Some(q) ==> !q.is_king() ==> p.board[if k == m.1 {
            m.0 as int
        } else {
            k
        }] == Some(q),
        p.board[m.0 as int].unwrap().is_king() ==> p.successor(m).board[m.1 as int] == p.board[m.0 as int],
{
    lemma_legal_move_shape(p, m);
}

/// Every position of a game is valid: legal moves lead from a valid
/// position to valid positions only.
pub proof fn lemma_game_stays_valid(p: Position, line: Seq<Move>)
    requires
        p.valid(),
        p.playable(line),
    ensures
        p.after_line(line).valid(),
    decreases line.len(),
{
    if line.len() > 0 {
        lemma_legal_move_keeps_valid(p, line[0]);
        lemma_game_stays_valid(p.successor(line[0]), line.drop_first());
    }
}

/// Pieces are conserved over a game: after any line of legal moves each
/// side has the pieces it had, less one for every capture that the other
/// side made.
pub proof fn lemma_piece_conservation_over_game(p: Position, line: Seq<Move>, o_side: bool)
    requires
        p.valid(),
        p.playable(line),
    ensures
        pieces(p.after_line(line).board, o_side) == pieces(p.board, o_side) - p.captures_in(
            line,
            !o_side,
        ),
    decreases line.len(),
{
    if line.len() > 0 {
        lemma_legal_move_keeps_valid(p, line[0]);
        lemma_piece_conservation(p, line[0], o_side);
        lemma_piece_conservation_over_game(p.successor(line[0]), line.drop_first(), o_side);
    }
}

/// A king stays a king through a move: unless it is captured, the same king
/// stands where the move takes or leaves it.
pub proof fn lemma_king_stays_king(p: Position, m: Move, k: int)
    requires
        p.valid(),
        p.legal_moves().contains(m),
        on_board(k),
        p.board[k] is Some,
        p.board[k].unwrap().is_king(),
    ensures
        follow(m, k) matches Some(next) ==> on_board(next) && p.successor(m).board[next]
            == p.board[k],
{
    lemma_legal_move_shape(p, m);
}

/// Promotion is permanent over a game: through any line of legal moves a
/// king stays the king it is, wherever it goes, until it is captured.
pub proof fn lemma_king_stays_king_over_game(p: Position, line: Seq<Move>, k: int)
    requires
        p.valid(),
        p.playable(line),
        on_board(k),
        p.board[k] is Some,
        p.board[k].unwrap().is_king(),
    ensures
        follow_line(line, k) matches Some(last) ==> on_board(last) && p.after_line(line).board[last]
            == p.board[k],
    decreases line.len(),
{
    if line.len() > 0 {
        lemma_legal_move_keeps_valid(p, line[0]);
        lemma_king_stays_king(p, line[0], k);
        if let Some(next) = follow(line[0], k) {
            lemma_king_stays_king_over_game(p.successor(line[0]), line.drop_first(), next);
        }
    }
}

} // verus!
