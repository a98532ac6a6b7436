//! The rules of checkers favour no side: seen from the other side of the
//! board, with the sides exchanged, a position allows the same moves and
//! they lead to the same positions.

use vstd::prelude::*;
use crate::checkers::Piece;
use crate::geometry::{
    adjacent, landing, lemma_adjacent_on_board, lemma_half_turn, lemma_landing_on_board, on_board,
    turned, Direction,
};
use crate::position::{
    crowned, decided, exchanged, lemma_pieces_first, mirrored, pieces, Move, Position,
};

verus! {

/// On the mirrored board each side has as many pieces as the other had.
pub proof fn lemma_pieces_mirrored(board: Seq<Option<Piece>>, o_side: bool)
    ensures
        pieces(mirrored(board), o_side) == pieces(board, !o_side),
    decreases board.len(),
{
    if board.len() > 0 {
        lemma_pieces_first(board, !o_side);
        lemma_pieces_mirrored(board.drop_first(), o_side);
        assert(mirrored(board).drop_last() == mirrored(board.drop_first()));
    }
}

/// The evaluation is symmetric: seen from the other side a position is
/// worth the opposite.
pub proof fn lemma_mirrored_evaluation(p: Position)
    ensures
        p.mirrored().evaluation() == -p.evaluation(),
{
    lemma_pieces_mirrored(p.board, true);
    lemma_pieces_mirrored(p.board, false);
}

/// The move `m` as it is named from the other side of the board.
pub open spec fn mirrored_move(m: Move) -> Move {
    (
        turned(m.0 as int) as usize,
        turned(m.1 as int) as usize,
        match m.2 {
            Some(over) => Some(turned(over as int) as usize),
            None => None,
        },
    )
}

/// Mirroring twice gives the position back.
pub proof fn lemma_mirrored_twice(p: Position)
    requires
        p.board.len() == 32,
        p.mid_jump matches Some(from) ==> on_board(from as int),
    ensures
        p.mirrored().mirrored() == p,
{
    assert(p.mirrored().mirrored().board =~= p.board);
}

/// On the mirrored board the square that `k` comes to lie on holds the
/// counterpart of what `k` holds: a piece of the side to move for a piece of
/// the side to move, and nothing for nothing.
pub proof fn lemma_mirrored_square(p: Position, k: int)
    requires
        p.board.len() == 32,
        on_board(k),
    ensures
        on_board(turned(k)),
        p.mirrored().board[turned(k)] == exchanged(p.board[k]),
        p.mirrored().board[turned(k)] is None <==> p.board[k] is None,
        p.mirrored().owns(turned(k)) == p.owns(k),
        p.mirrored().holds_enemy(turned(k)) == p.holds_enemy(k),
{
}

/// A piece may travel one way exactly when its counterpart may travel the
/// opposite way.
pub proof fn lemma_mirrored_travel(piece: Piece, d: Direction)
    ensures
        exchanged(Some(piece)).unwrap().may_travel(d.reversed()) == piece.may_travel(d),
{
}

/// The step that a piece may take in one direction, its counterpart may
/// take in the opposite direction on the mirrored board.
pub proof fn lemma_mirrored_step(p: Position, from: int, d: Direction)
    requires
        p.board.len() == 32,
        on_board(from),
    ensures
        p.mirrored().can_step(turned(from), d.reversed()) == p.can_step(from, d),
        p.can_step(from, d) ==> Position::step_move(turned(from), d.reversed()) == mirrored_move(
            Position::step_move(from, d),
        ),
{
    lemma_half_turn(from, d);
    lemma_adjacent_on_board(from, d);
    lemma_mirrored_square(p, from);
    if let Some(piece) = p.board[from] {
        lemma_mirrored_travel(piece, d);
    }
    if let Some(to) = adjacent(from, d) {
        lemma_mirrored_square(p, to);
    }
}

/// The capture that a piece may make in one direction, its counterpart may
/// make in the opposite direction on the mirrored board.
pub proof fn lemma_mirrored_capture(p: Position, from: int, d: Direction)
    requires
        p.board.len() == 32,
        on_board(from),
    ensures
        p.mirrored().can_capture(turned(from), d.reversed()) == p.can_capture(from, d),
        p.can_capture(from, d) ==> Position::capture_move(turned(from), d.reversed())
            == mirrored_move(Position::capture_move(from, d)),
{
    lemma_half_turn(from, d);
    lemma_adjacent_on_board(from, d);
    lemma_landing_on_board(from, d);
    lemma_mirrored_square(p, from);
    if let Some(piece) = p.board[from] {
        lemma_mirrored_travel(piece, d);
    }
    if let Some(over) = adjacent(from, d) {
        lemma_mirrored_square(p, over);
    }
    if let Some(to) = landing(from, d) {
        lemma_mirrored_square(p, to);
    }
}

/// A move is a step or a capture allowed by the rules exactly when its
/// counterpart is on the mirrored board.
pub proof fn lemma_mirrored_kinds(p: Position, m: Move)
    requires
        p.board.len() == 32,
        on_board(m.0 as int),
    ensures
        p.is_step(m) ==> p.mirrored().is_step(mirrored_move(m)),
        p.is_capture(m) ==> p.mirrored().is_capture(mirrored_move(m)),
{
    let from = m.0 as int;
    if p.is_step(m) {
        let d = choose|d: Direction| #[trigger]
            p.can_step(m.0 as int, d) && m == Position::step_move(m.0 as int, d);
        lemma_mirrored_step(p, from, d);
        lemma_half_turn(from, d);
        assert(p.mirrored().can_step(mirrored_move(m).0 as int, d.reversed()));
    }
    if p.is_capture(m) {
        let d = choose|d: Direction| #[trigger]
            p.can_capture(m.0 as int, d) && m == Position::capture_move(m.0 as int, d);
        lemma_mirrored_capture(p, from, d);
        lemma_half_turn(from, d);
        assert(p.mirrored().can_capture(mirrored_move(m).0 as int, d.reversed()));
    }
}

/// Some piece of the side to move can capture exactly when some piece of
/// the side to move can on the mirrored board.
pub proof fn lemma_mirrored_capture_available(p: Position)
    requires
        p.board.len() == 32,
    ensures
        p.capture_available() ==> p.mirrored().capture_available(),
{
    if p.capture_available() {
        let (i, d) = choose|i: int, d: Direction| p.owns(i) && #[trigger] p.can_capture(i, d);
        lemma_mirrored_capture(p, i, d);
        lemma_mirrored_square(p, i);
        assert(p.mirrored().owns(turned(i)) && p.mirrored().can_capture(turned(i), d.reversed()));
    }
}

/// The rules favour no side: a move that is legal in a position has a legal
/// counterpart in the mirrored position.
pub proof fn lemma_mirrored_legal(p: Position, m: Move)
    requires
        p.valid(),
        p.is_legal(m),
    ensures
        p.mirrored().is_legal(mirrored_move(m)),
{
    let q = p.mirrored();
    let from = m.0 as int;
    assert(on_board(from)) by {
        if p.is_step(m) {
            let d = choose|d: Direction| #[trigger]
                p.can_step(m.0 as int, d) && m == Position::step_move(m.0 as int, d);
        }
        if p.is_capture(m) {
            let d = choose|d: Direction| #[trigger]
                p.can_capture(m.0 as int, d) && m == Position::capture_move(m.0 as int, d);
        }
    }
    lemma_mirrored_kinds(p, m);
    lemma_mirrored_square(p, from);
    lemma_mirrored_capture_available(p);
    if p.mid_jump is None && !p.capture_available() && q.capture_available() {
        lemma_mirrored_twice(p);
        lemma_mirrored_capture_available(q);
    }
}

/// A piece has a capture from a square exactly when its counterpart has one
/// from the mirrored square.
pub proof fn lemma_mirrored_captures_from(p: Position, from: int)
    requires
        p.board.len() == 32,
        on_board(from),
    ensures
        p.mirrored().captures_from(turned(from)).len() > 0 <==> p.captures_from(from).len() > 0,
{
    lemma_mirrored_capture(p, from, Direction::DownLeft);
    lemma_mirrored_capture(p, from, Direction::UpLeft);
    lemma_mirrored_capture(p, from, Direction::DownRight);
    lemma_mirrored_capture(p, from, Direction::UpRight);
}

/// The mirror image of a valid position is valid.
pub proof fn lemma_mirrored_valid(p: Position)
    requires
        p.valid(),
    ensures
        p.mirrored().valid(),
{
    if let Some(from) = p.mid_jump {
        lemma_mirrored_square(p, from as int);
        lemma_mirrored_captures_from(p, from as int);
    }
}

/// The board after a move, mirrored, is the mirrored board after the
/// mirrored move.
pub proof fn lemma_mirrored_board_after(p: Position, m: Move)
    requires
        p.board.len() == 32,
        p.accepts(m),
    ensures
        p.mirrored().board_after(mirrored_move(m)) == mirrored(p.board_after(m)),
{
    let q = p.mirrored();
    let mm = mirrored_move(m);
    let from = m.0 as int;
    let to = m.1 as int;
    let lifted = match m.2 {
        Some(over) => p.board.update(over as int, None),
        None => p.board,
    };
    let q_lifted = match mm.2 {
        Some(over) => q.board.update(over as int, None),
        None => q.board,
    };
    assert(q_lifted =~= mirrored(lifted));
    let moved = lifted.update(to, lifted[from]).update(from, None);
    let q_moved = q_lifted.update(turned(to), q_lifted[turned(from)]).update(turned(from), None);
    assert(q_moved =~= mirrored(moved));
    assert(crowned(q_moved, turned(to)) =~= mirrored(crowned(moved, to)));
}

/// Play commutes with mirroring: the mirrored move, played in the mirrored
/// position, leads to the mirror image of the position that the move leads
/// to.
pub proof fn lemma_mirrored_successor(p: Position, m: Move)
    requires
        p.board.len() == 32,
        p.accepts(m),
    ensures
        p.mirrored().successor(mirrored_move(m)) == p.successor(m).mirrored(),
{
    lemma_mirrored_board_after(p, m);
    let landed = Position {
        board: p.board_after(m),
        o_to_move: p.o_to_move,
        mid_jump: None,
        winner: p.winner,
    };
    lemma_mirrored_captures_from(landed, m.1 as int);
    let q_landed = Position {
        board: p.mirrored().board_after(mirrored_move(m)),
        o_to_move: p.mirrored().o_to_move,
        mid_jump: None,
        winner: p.mirrored().winner,
    };
    assert(q_landed.board == landed.mirrored().board);
    assert(q_landed.captures_from(turned(m.1 as int)) == landed.mirrored().captures_from(
        turned(m.1 as int),
    ));
}

/// Who has won on the mirrored board is the counterpart of who has won on
/// the board, but that on an empty board X is named either way.
pub proof fn lemma_mirrored_decided(board: Seq<Option<Piece>>)
    requires
        pieces(board, false) > 0 || pieces(board, true) > 0,
    ensures
        decided(mirrored(board)) == match decided(board) {
            Some(o_won) => Some(!o_won),
            None => None,
        },
{
    lemma_pieces_mirrored(board, true);
    lemma_pieces_mirrored(board, false);
}

} // verus!
