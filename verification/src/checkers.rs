//! American checkers: the pieces, the game state and the rules of play.

use vstd::prelude::*;
use crate::geometry::{
    adjacent, landing, lemma_landing_on_board, lemma_leftward_jumps,
    lemma_rightward_jumps, lemma_steps, on_board, row_of, Direction,
};
use crate::minimax::{is_choice, minimax_search, HeuristicGameTree};
use crate::position::{
    crowned, decided, lemma_pieces_monotone, lemma_pieces_take_next, pieces, Move, Position,
};
use crate::rules::{lemma_legal_move_keeps_valid, lemma_legal_moves_members};

verus! {

/// A piece. X moves down the board (toward higher rows), O moves up; kings
/// move both ways.
#[derive(Clone, Copy, Debug, PartialEq, Eq, Structural)]
pub enum Piece {
    X,
    O,
    XKing,
    OKing,
}

impl Piece {
    /// Whether the piece belongs to the O side.
    pub open spec fn spec_is_o(&self) -> bool {
        *self is O || *self is OKing
    }

    /// Whether the piece belongs to the X side.
    pub open spec fn spec_is_x(&self) -> bool {
        !self.spec_is_o()
    }

    /// Whether the piece is a king.
    pub open spec fn spec_is_king(&self) -> bool {
        *self is XKing || *self is OKing
    }

    /// Whether the piece may travel in direction `d`: a king anywhere, an X
    /// man down, an O man up.
    pub open spec fn may_travel(&self, d: Direction) -> bool {
        self.is_king() || self.is_x() == d.is_down()
    }

    /// Whether the piece belongs to the O side.
    #[verifier::when_used_as_spec(spec_is_o)]
    pub fn is_o(&self) -> (r: bool)
        ensures
            r == self.spec_is_o(),
    {
        match self {
            Piece::O => true,
            Piece::OKing => true,
            _ => false,
        }
    }

    /// Whether the piece belongs to the X side.
    #[verifier::when_used_as_spec(spec_is_x)]
    pub fn is_x(&self) -> (r: bool)
        ensures
            r == self.spec_is_x(),
    {
        !self.is_o()
    }

    /// Whether the piece is a king.
    #[verifier::when_used_as_spec(spec_is_king)]
    pub fn is_king(&self) -> (r: bool)
        ensures
            r == self.spec_is_king(),
    {
        match self {
            Piece::OKing => true,
            Piece::XKing => true,
            _ => false,
        }
    }
}

/// The opening layout: X men on rows 0 to 2, O men on rows 5 to 7.
pub open spec fn opening_board() -> Seq<Option<Piece>> {
    Seq::new(
        32,
        |i: int|
            if i < 12 {
                Some(Piece::X)
            } else if i < 20 {
                None
            } else {
                Some(Piece::O)
            },
    )
}

/// The state of a game of checkers.
#[derive(Debug, PartialEq, Eq)]
pub struct CheckersGame {
    /// The 32 playable squares, in reading order.
    pub board: [Option<Piece>; 32],
    /// The recorded winner: `Some(true)` for O, `Some(false)` for X.
    pub o_won: Option<bool>,
    /// Whether the O side has the turn.
    pub is_o_turn: bool,
    /// The square from which a multi-jump must be continued, if one is under
    /// way.
    pub last_skip: Option<usize>,
}

impl View for CheckersGame {
    type V = Position;

    open spec fn view(&self) -> Position {
        Position {
            board: self.board@,
            o_to_move: self.is_o_turn,
            mid_jump: self.last_skip,
            winner: self.o_won,
        }
    }
}

impl Clone for CheckersGame {
    /// The copy equals the state it was made from and shares nothing with
    /// it.
    fn clone(&self) -> (copy: Self)
        ensures
            copy == *self,
    {
        CheckersGame {
            board: self.board,
            o_won: self.o_won,
            is_o_turn: self.is_o_turn,
            last_skip: self.last_skip,
        }
    }
}

impl CheckersGame {
    /// The state at the start of a game: the opening layout, O to move, no
    /// multi-jump under way and no winner.
    pub fn new() -> (game: Self)
        ensures
            game@.board == opening_board(),
            game@.o_to_move,
            game@.mid_jump is None,
            game@.winner is None,
            game@.valid(),
    {
        CheckersGame {
            board: [
                Some(Piece::X),
                Some(Piece::X),
                Some(Piece::X),
                Some(Piece::X),
                Some(Piece::X),
                Some(Piece::X),
                Some(Piece::X),
                Some(Piece::X),
                Some(Piece::X),
                Some(Piece::X),
                Some(Piece::X),
                Some(Piece::X),
                None,
                None,
                None,
                None,
                None,
                None,
                None,
                None,
                Some(Piece::O),
                Some(Piece::O),
                Some(Piece::O),
                Some(Piece::O),
                Some(Piece::O),
                Some(Piece::O),
                Some(Piece::O),
                Some(Piece::O),
                Some(Piece::O),
                Some(Piece::O),
                Some(Piece::O),
                Some(Piece::O),
            ],
            o_won: None,
            is_o_turn: true,
            last_skip: None,
        }
    }

    /// Whether the state satisfies the invariant of a position, which the
    /// functions that play a game ask for. Every state that a game reaches
    /// from its start does; a state whose fields were set by hand may not.
    pub fn is_valid(&self) -> (valid: bool)
        ensures
            valid == self@.valid(),
    {
        match self.last_skip {
            None => true,
            Some(from) => {
                if from >= 32 {
                    return false;
                }
                match self.board[from] {
                    None => false,
                    Some(p) => p.is_o() == self.is_o_turn && self.possible_positions_jump(
                        from,
                    ).len() > 0,
                }
            },
        }
    }

    /// Whether the jump from `start` over `jump_over` to `jump_to` is open
    /// to the piece on `start`, the squares taken as given.
    spec fn jump_open(&self, start: int, jump_over: int, jump_to: int) -> bool {
        &&& self@.holds_enemy(jump_over)
        &&& self.board[jump_to] is None
        &&& self.board[start] matches Some(p)
        &&& (p.is_king() || p.is_x() == (start < jump_to))
    }

    /// Appends the jump from `start` over `jump_over` to `jump_to` to `list`
    /// if `jump_over` holds a piece of the side that is not to move,
    /// `jump_to` is empty and the piece on `start` may travel that way.
    fn maybe_add_jump(&self, start: usize, jump_over: usize, jump_to: usize, list: &mut Vec<Move>)
        requires
            start < 32,
            jump_over < 32,
            jump_to < 32,
            start != jump_to,
            self.board[start as int] is Some,
        ensures
            final(list)@ == old(list)@ + (if self.jump_open(
                start as int,
                jump_over as int,
                jump_to as int,
            ) {
                seq![(start, jump_to, Some(jump_over))]
            } else {
                Seq::empty()
            }),
    {
        if let Some(p) = self.board[jump_over] {
            if p.is_x() == self.is_o_turn && self.board[jump_to].is_none() {
                let mover = self.board[start].unwrap();
                let allowed = if mover.is_king() {
                    true
                } else if mover.is_x() {
                    start < jump_to
                } else {
                    jump_to < start
                };
                if allowed {
                    list.push((start, jump_to, Some(jump_over)));
                    assert(list@ == old(list)@ + seq![(start, jump_to, Some(jump_over))]);
                    return ;
                }
            }
        }
        assert(list@ == old(list)@ + Seq::<Move>::empty());
    }

    /// A capture stated by squares is the capture stated by direction.
    proof fn lemma_capture_by_index(&self, start: int, d: Direction, over: int, to: int)
        requires
            on_board(start),
            adjacent(start, d) == Some(over),
            landing(start, d) == Some(to),
        ensures
            self@.captures_toward(start, d) == if self.jump_open(start, over, to) {
                seq![(start as usize, to as usize, Some(over as usize))]
            } else {
                Seq::<Move>::empty()
            },
    {
        lemma_landing_on_board(start, d);
    }

    /// The captures allowed to the piece on `start`, in enumeration order:
    /// leftward before rightward and, on each side, downward before upward.
    /// A capture jumps a piece of the side that is not to move. From an
    /// empty square there are none.
    pub fn possible_positions_jump(&self, start: usize) -> (moves: Vec<Move>)
        requires
            start < 32,
        ensures
            moves@ == self@.captures_from(start as int),
    {
        let mut pos: Vec<Move> = Vec::new();
        let ghost s = start as int;
        if self.board[start].is_none() {
            assert(pos@ == self@.captures_from(s));
            return pos;
        }
        let ghost down_left = self@.captures_toward(s, Direction::DownLeft);
        let ghost up_left = self@.captures_toward(s, Direction::UpLeft);
        let ghost down_right = self@.captures_toward(s, Direction::DownRight);
        let ghost up_right = self@.captures_toward(s, Direction::UpRight);
        proof {
            lemma_leftward_jumps(s);
            lemma_rightward_jumps(s);
            if landing(s, Direction::DownLeft) is Some {
                self.lemma_capture_by_index(
                    s,
                    Direction::DownLeft,
                    adjacent(s, Direction::DownLeft).unwrap(),
                    s + 7,
                );
            }
            if landing(s, Direction::UpLeft) is Some {
                self.lemma_capture_by_index(
                    s,
                    Direction::UpLeft,
                    adjacent(s, Direction::UpLeft).unwrap(),
                    s - 9,
                );
            }
            if landing(s, Direction::DownRight) is Some {
                self.lemma_capture_by_index(
                    s,
                    Direction::DownRight,
                    adjacent(s, Direction::DownRight).unwrap(),
                    s + 9,
                );
            }
            if landing(s, Direction::UpRight) is Some {
                self.lemma_capture_by_index(
                    s,
                    Direction::UpRight,
                    adjacent(s, Direction::UpRight).unwrap(),
                    s - 7,
                );
            }
        }
        if (start + 7) % 8 < 3 {
            // Even row, not on the left edge.
            if start < 24 {
                self.maybe_add_jump(start, start + 3, start + 7, &mut pos);
            }
            assert(pos@ == down_left);
            if start >= 8 {
                self.maybe_add_jump(start, start - 5, start - 9, &mut pos);
            }
            assert(pos@ == down_left + up_left);
        }
        if (start + 3) % 8 < 3 {
            // Odd row, not on the left edge.
            if start < 24 {
                self.maybe_add_jump(start, start + 4, start + 7, &mut pos);
            }
            assert(pos@ == down_left);
            if start >= 8 {
                self.maybe_add_jump(start, start - 4, start - 9, &mut pos);
            }
            assert(pos@ == down_left + up_left);
        }
        assert(pos@ == down_left + up_left);
        if start % 8 < 3 {
            // Even row, not on the right edge.
            if start < 24 {
                self.maybe_add_jump(start, start + 4, start + 9, &mut pos);
            }
            assert(pos@ == down_left + up_left + down_right);
            if start >= 8 {
                self.maybe_add_jump(start, start - 4, start - 7, &mut pos);
            }
            assert(pos@ == down_left + up_left + down_right + up_right);
        }
        if (start + 4) % 8 < 3 {
            // Odd row, not on the right edge.
            if start < 24 {
                self.maybe_add_jump(start, start + 5, start + 9, &mut pos);
            }
            assert(pos@ == down_left + up_left + down_right);
            if start >= 8 {
                self.maybe_add_jump(start, start - 3, start - 7, &mut pos);
            }
            assert(pos@ == down_left + up_left + down_right + up_right);
        }
        assert(pos@ == down_left + up_left + down_right + up_right);
        pos
    }

    /// Appends the step from `start` to `to` to `list` if `to` is empty.
    fn maybe_add_step(&self, start: usize, to: usize, list: &mut Vec<Move>)
        requires
            to < 32,
        ensures
            final(list)@ == old(list)@ + (if self.board[to as int] is None {
                seq![(start, to, None::<usize>)]
            } else {
                Seq::empty()
            }),
    {
        if self.board[to].is_none() {
            list.push((start, to, None));
            assert(list@ == old(list)@ + seq![(start, to, None::<usize>)]);
        } else {
            assert(list@ == old(list)@ + Seq::<Move>::empty());
        }
    }

    /// The steps allowed to the piece on `start`, in enumeration order:
    /// downward before upward on each side, and the left side first from an
    /// even row, the right side first from an odd row.
    pub fn possible_positions_no_jump(&self, start: usize) -> (moves: Vec<Move>)
        requires
            start < 32,
            self.board[start as int] is Some,
        ensures
            moves@ == self@.steps_from(start as int),
    {
        let p = self.board[start].unwrap();
        let mut pos: Vec<Move> = Vec::new();
        let ghost s = start as int;
        let ghost even = row_of(s) % 2 == 0;
        let ghost down_left = self@.steps_toward(s, Direction::DownLeft);
        let ghost up_left = self@.steps_toward(s, Direction::UpLeft);
        let ghost down_right = self@.steps_toward(s, Direction::DownRight);
        let ghost up_right = self@.steps_toward(s, Direction::UpRight);
        proof {
            lemma_steps(s);
        }
        let down = p.is_x() || p.is_king();
        let up = p.is_o() || p.is_king();
        assert(down == p.may_travel(Direction::DownLeft) && down == p.may_travel(
            Direction::DownRight,
        ));
        assert(up == p.may_travel(Direction::UpLeft) && up == p.may_travel(Direction::UpRight));
        if (start + 7) % 8 < 3 {
            // Even row, not on the left edge.
            if down {
                self.maybe_add_step(start, start + 3, &mut pos);
            }
            assert(pos@ == down_left);
            if up && start > 8 {
                self.maybe_add_step(start, start - 5, &mut pos);
            }
            assert(pos@ == down_left + up_left);
        }
        if (start + 4) % 8 < 3 {
            // Odd row, not on the right edge.
            if down && start < 28 {
                self.maybe_add_step(start, start + 5, &mut pos);
            }
            assert(pos@ == down_right);
            if up {
                self.maybe_add_step(start, start - 3, &mut pos);
            }
            assert(pos@ == down_right + up_right);
        }
        let ghost first = pos@;
        assert(first == if even {
            down_left + up_left
        } else {
            down_right + up_right
        }) by {
            if even && !((s + 7) % 8 < 3) {
                assert(down_left + up_left == Seq::<Move>::empty());
            }
            if !even && !((s + 4) % 8 < 3) {
                assert(down_right + up_right == Seq::<Move>::empty());
            }
        }
        if start < 28 && down {
            self.maybe_add_step(start, start + 4, &mut pos);
        }
        let ghost second = pos@;
        assert(second == first + if even {
            down_right
        } else {
            down_left
        });
        if start >= 4 && up {
            self.maybe_add_step(start, start - 4, &mut pos);
        }
        assert(pos@ == second + if even {
            up_right
        } else {
            up_left
        });
        assert(pos@ == self@.steps_from(s)) by {
            if even {
                assert(down_left + up_left + down_right + up_right == down_left + up_left + (
                down_right + up_right));
            } else {
                assert(down_right + up_right + down_left + up_left == down_right + up_right + (
                down_left + up_left));
            }
        }
        pos
    }

    /// The legal move from `start` to `end`, if there is one.
    pub fn valid_move(&self, start: usize, end: usize) -> (found: Option<Move>)
        requires
            self@.valid(),
        ensures
            match found {
                Some(m) => m.0 == start && m.1 == end && self@.is_legal(m),
                None => forall|m: Move| m.0 == start && m.1 == end ==> !self@.is_legal(m),
            },
    {
        let moves = self.possible_moves();
        let mut i: usize = 0;
        while i < moves.len()
            invariant
                i <= moves.len(),
                self@.valid(),
                moves@ == self@.legal_moves(),
                forall|j: int| 0 <= j < i ==> !(#[trigger] moves@[j].0 == start && moves@[j].1 == end),
            decreases moves.len() - i,
        {
            let m = moves[i];
            if m.0 == start && m.1 == end {
                proof {
                    assert(self@.legal_moves().contains(m));
                    lemma_legal_moves_members(self@, m);
                }
                return Some(m);
            }
            i += 1;
        }
        proof {
            assert forall|m: Move| m.0 == start && m.1 == end implies !self@.is_legal(m) by {
                lemma_legal_moves_members(self@, m);
                if self@.legal_moves().contains(m) {
                    let j = choose|j: int| 0 <= j < moves@.len() && moves@[j] == m;
                    assert(moves@[j].0 == start);
                }
            }
        }
        None
    }

    /// Crowns the man on `pos` if `pos` lies in the far row of its side.
    pub fn maybe_make_king(&mut self, pos: usize)
        requires
            pos < 32,
            pos < 4 || pos >= 28 ==> old(self).board[pos as int] is Some,
        ensures
            final(self)@ == (Position { board: crowned(old(self)@.board, pos as int), ..old(self)@ }),
    {
        if pos < 4 && self.board[pos].unwrap().is_o() {
            self.board[pos] = Some(Piece::OKing);
        } else if pos >= 28 && self.board[pos].unwrap().is_x() {
            self.board[pos] = Some(Piece::XKing);
        }
    }

    /// Who has won, going by the pieces on the board: nobody while both
    /// sides have pieces; otherwise O (`Some(true)`) if it has any, and X
    /// (`Some(false)`) if O has none.
    pub fn is_o_winner(&self) -> (winner: Option<bool>)
        ensures
            winner == decided(self@.board),
    {
        let mut found_o = false;
        let mut found_x = false;
        let mut i: usize = 0;
        proof {
            lemma_pieces_take_next(self@.board, 0, true);
            lemma_pieces_take_next(self@.board, 0, false);
        }
        while i < 32
            invariant
                i <= 32,
                found_o == (pieces(self@.board.take(i as int), true) > 0),
                found_x == (pieces(self@.board.take(i as int), false) > 0),
                !(found_o && found_x),
            decreases 32 - i,
        {
            proof {
                lemma_pieces_take_next(self@.board, i as int, true);
                lemma_pieces_take_next(self@.board, i as int, false);
            }
            if let Some(p) = self.board[i] {
                found_x = found_x || p.is_x();
                found_o = found_o || p.is_o();
            }
            if found_x && found_o {
                proof {
                    lemma_pieces_monotone(self@.board, i as int + 1, true);
                    lemma_pieces_monotone(self@.board, i as int + 1, false);
                }
                return None;
            }
            i += 1;
        }
        Some(found_o)
    }

    /// Records who has won, going by the pieces on the board.
    pub fn check_winner(&mut self)
        ensures
            final(self)@ == old(self)@.judged(),
    {
        self.o_won = self.is_o_winner();
    }

    /// The name of the recorded winner, if there is one.
    pub fn who_won(&self) -> (name: Option<&'static str>)
        ensures
            match self@.winner {
                Some(true) => name is Some && name.unwrap()@ == seq!['O'],
                Some(false) => name is Some && name.unwrap()@ == seq!['X'],
                None => name is None,
            },
    {
        proof {
            reveal_strlit("O");
            reveal_strlit("X");
        }
        match self.o_won {
            Some(true) => {
                let name = "O";
                assert(name@ == seq!['O']);
                Some(name)
            },
            Some(false) => {
                let name = "X";
                assert(name@ == seq!['X']);
                Some(name)
            },
            None => None,
        }
    }

    /// Whether the opponent, X, has the turn.
    pub fn is_opponent_turn(&self) -> (opponent: bool)
        ensures
            opponent == !self@.o_to_move,
    {
        !self.is_o_turn
    }

    /// Passes the turn to the other side without a move.
    pub fn give_up_turn(&mut self)
        ensures
            final(self)@ == old(self)@.passed(),
    {
        self.is_o_turn = !self.is_o_turn;
    }

    /// The depth to search at a level of difficulty: six plies a level.
    pub fn search_depth(difficulty: usize) -> (depth: usize)
        requires
            6 * difficulty <= usize::MAX,
        ensures
            depth == 6 * difficulty,
    {
        difficulty * 6
    }

    /// Plays the legal move from `start` to `end` and records the winner
    /// that the board then shows. Where there is no such move, the state is
    /// left as it is and `None` is returned.
    pub fn play(&mut self, start: usize, end: usize) -> (played: Option<Move>)
        requires
            old(self)@.valid(),
        ensures
            match played {
                Some(m) => m.0 == start && m.1 == end && old(self)@.is_legal(m) && final(self)@
                    == old(self)@.successor(m).judged(),
                None => final(self)@ == old(self)@ && forall|m: Move|
                    m.0 == start && m.1 == end ==> !old(self)@.is_legal(m),
            },
            final(self)@.valid(),
    {
        match self.valid_move(start, end) {
            Some(m) => {
                proof {
                    lemma_legal_moves_members(self@, m);
                    lemma_legal_move_keeps_valid(self@, m);
                }
                self.execute_move(&m, false);
                self.check_winner();
                Some(m)
            },
            None => None,
        }
    }

    /// Plays the move that a search of the given depth chooses for the side
    /// to move, and records the winner that the board then shows. Where no
    /// move is legal, the turn is given up and `None` is returned.
    pub fn respond(&mut self, depth: usize) -> (played: Option<Move>)
        requires
            old(self)@.valid(),
        ensures
            is_choice::<CheckersGame>(old(self)@, depth as nat, true, played),
            match played {
                Some(m) => old(self)@.legal_moves().contains(m) && final(self)@
                    == old(self)@.successor(m).judged(),
                None => old(self)@.legal_moves().len() == 0 && final(self)@
                    == old(self)@.passed().judged(),
            },
            final(self)@.valid(),
    {
        let next_move = minimax_search(&*self, depth, true);
        match next_move {
            Some(m) => {
                proof {
                    lemma_legal_move_keeps_valid(self@, m);
                }
                self.execute_move(&m, true);
            },
            None => {
                self.give_up_turn();
            },
        }
        self.check_winner();
        next_move
    }
}

impl HeuristicGameTree for CheckersGame {
    type Move = Move;

    open spec fn valid(v: Position) -> bool {
        v.valid()
    }

    open spec fn legal_moves(v: Position) -> Seq<Move> {
        v.legal_moves()
    }

    open spec fn evaluation(v: Position) -> int {
        v.evaluation()
    }

    open spec fn accepts(v: Position, m: Move) -> bool {
        v.accepts(m)
    }

    open spec fn successor(v: Position, m: Move, is_opponent: bool) -> Position {
        v.successor(m)
    }

    open spec fn opponent_to_move(v: Position) -> bool {
        !v.o_to_move
    }

    proof fn lemma_legal_move(v: Position, m: Move, is_opponent: bool) {
        lemma_legal_move_keeps_valid(v, m);
    }

    proof fn lemma_evaluation_bounds(v: Position) {
        v.lemma_evaluation_bounded();
    }

    proof fn lemma_clone(state: &Self, copy: &Self) {
    }

    /// The legal moves: in the middle of a multi-jump the captures of the
    /// piece that is jumping; otherwise the captures of every piece of the
    /// side to move, square by square, or, where there are none, its steps.
    fn possible_moves(&self) -> (moves: Vec<Move>) {
        let mut positions: Vec<Move> = Vec::new();
        if let Some(p) = self.last_skip {
            let mut jumps = self.possible_positions_jump(p);
            positions.append(&mut jumps);
            assert(positions@ == self@.captures_from(p as int));
        } else {
            let mut i: usize = 0;
            while i < 32
                invariant
                    i <= 32,
                    positions@ == self@.captures_below(i as nat),
                decreases 32 - i,
            {
                if let Some(s) = self.board[i] {
                    if self.is_o_turn == s.is_o() {
                        let mut jumps = self.possible_positions_jump(i);
                        positions.append(&mut jumps);
                    }
                }
                i += 1;
            }
        }
        if positions.len() == 0 && self.last_skip.is_none() {
            let mut i: usize = 0;
            while i < 32
                invariant
                    i <= 32,
                    positions@ == self@.steps_below(i as nat),
                decreases 32 - i,
            {
                if let Some(s) = self.board[i] {
                    if self.is_o_turn == s.is_o() {
                        let mut steps = self.possible_positions_no_jump(i);
                        positions.append(&mut steps);
                    }
                }
                i += 1;
            }
        }
        positions
    }

    /// The material balance: the pieces of X less the pieces of O, men and
    /// kings alike.
    fn heuristic(&self) -> (h: isize) {
        let mut h: isize = 0;
        let mut i: usize = 0;
        proof {
            lemma_pieces_take_next(self@.board, 0, true);
            lemma_pieces_take_next(self@.board, 0, false);
        }
        while i < 32
            invariant
                i <= 32,
                h == pieces(self@.board.take(i as int), false) - pieces(
                    self@.board.take(i as int),
                    true,
                ),
                -(i as int) <= h <= i,
            decreases 32 - i,
        {
            proof {
                lemma_pieces_take_next(self@.board, i as int, true);
                lemma_pieces_take_next(self@.board, i as int, false);
            }
            if let Some(p) = self.board[i] {
                if p.is_o() {
                    h -= 1;
                } else {
                    h += 1;
                }
            }
            i += 1;
        }
        h
    }

    /// Plays `m`: lifts the captured piece, if any, moves the piece and
    /// crowns it in its far row. After a capture that the same piece can
    /// follow with another the turn stays and the multi-jump continues from
    /// the square reached; otherwise the turn passes. The move is not
    /// checked for legality, and `is_opponent` plays no part: the side is
    /// the one whose piece moves.
    fn execute_move(&mut self, m: &Move, is_opponent: bool) -> (opponent_next: bool) {
        self.last_skip = None;
        if let Some(jumped) = m.2 {
            self.board[jumped] = None;
            self.board[m.1] = self.board[m.0];
            self.board[m.0] = None;
            self.maybe_make_king(m.1);
            assert(self@.board == old(self)@.board_after(*m));
            let further = self.possible_positions_jump(m.1);
            if further.len() == 0 {
                self.is_o_turn = !self.is_o_turn;
            } else {
                self.last_skip = Some(m.1);
            }
        } else {
            self.board[m.1] = self.board[m.0];
            self.board[m.0] = None;
            self.maybe_make_king(m.1);
            assert(self@.board == old(self)@.board_after(*m));
            self.is_o_turn = !self.is_o_turn;
        }
        !self.is_o_turn
    }
}

/// The character that stands for a square's content on a printed board.
pub open spec fn glyph(item: Option<Piece>) -> char {
    match item {
        None => ' ',
        Some(Piece::X) => 'x',
        Some(Piece::O) => 'o',
        Some(Piece::XKing) => 'X',
        Some(Piece::OKing) => 'O',
    }
}

/// The text that stands for a square's content on a printed board: a space
/// for an empty square, `x` and `o` for men, `X` and `O` for kings.
pub fn print_piece(item: &Option<Piece>) -> (text: &'static str)
    ensures
        text@ == seq![glyph(*item)],
{
    proof {
        reveal_strlit(" ");
        reveal_strlit("x");
        reveal_strlit("o");
        reveal_strlit("X");
        reveal_strlit("O");
    }
    let text = match item {
        None => " ",
        Some(p) => match p {
            Piece::X => "x",
            Piece::O => "o",
            Piece::XKing => "X",
            Piece::OKing => "O",
        },
    };
    assert(text@ == seq![glyph(*item)]);
    text
}

} // verus!
