use game_tree::checkers::{CheckersGame, Piece};
use game_tree::HeuristicGameTree;

type Move = (usize, usize, Option<usize>);

fn empty_board() -> [Option<Piece>; 32] {
    [None; 32]
}

fn game_with(pieces: &[(usize, Piece)], o_turn: bool) -> CheckersGame {
    let mut game = CheckersGame::new();
    let mut board = empty_board();
    for (at, piece) in pieces {
        board[*at] = Some(*piece);
    }
    game.board = board;
    game.is_o_turn = o_turn;
    game
}

fn count(game: &CheckersGame, o_side: bool) -> usize {
    game.board.iter().filter(|cell| matches!(cell, Some(p) if p.is_o() == o_side)).count()
}

fn mirrored(game: &CheckersGame) -> CheckersGame {
    let mut other = CheckersGame::new();
    for i in 0..32 {
        other.board[i] = match game.board[31 - i] {
            None => None,
            Some(Piece::X) => Some(Piece::O),
            Some(Piece::O) => Some(Piece::X),
            Some(Piece::XKing) => Some(Piece::OKing),
            Some(Piece::OKing) => Some(Piece::XKing),
        };
    }
    other.is_o_turn = !game.is_o_turn;
    other
}

#[test]
fn opening_moves_are_the_seven_steps_of_o() {
    let game = CheckersGame::new();
    let moves: Vec<Move> = game.possible_moves();
    assert_eq!(
        moves,
        vec![
            (20, 17, None),
            (20, 16, None),
            (21, 18, None),
            (21, 17, None),
            (22, 19, None),
            (22, 18, None),
            (23, 19, None),
        ]
    );
}

#[test]
fn simple_step_moves_one_piece_and_passes_the_turn() {
    let mut game = CheckersGame::new();
    let before = game.board;
    let opponent_next = game.execute_move(&(20, 16, None), false);
    assert!(opponent_next);
    assert!(game.is_opponent_turn());
    assert_eq!(game.last_skip, None);
    for i in 0..32 {
        match i {
            16 => assert_eq!(game.board[i], Some(Piece::O)),
            20 => assert_eq!(game.board[i], None),
            _ => assert_eq!(game.board[i], before[i]),
        }
    }
}

#[test]
fn forced_jump_is_the_only_move() {
    let mut game = CheckersGame::new();
    game.execute_move(&(20, 17, None), false);
    game.execute_move(&(9, 12, None), false);
    game.execute_move(&(21, 18, None), false);
    assert_eq!(game.possible_moves(), vec![(12, 21, Some(17))]);
}

#[test]
fn capture_is_mandatory() {
    // X on 9 can step to 12 or capture the O on 13; only the capture is offered.
    let game = game_with(&[(9, Piece::X), (13, Piece::O), (2, Piece::X)], false);
    let moves = game.possible_moves();
    assert_eq!(moves, vec![(9, 18, Some(13))]);
    assert!(moves.iter().all(|m| m.2.is_some()));
    assert!(game.valid_move(9, 12).is_none());
    assert!(game.valid_move(2, 6).is_none());
    assert_eq!(game.valid_move(9, 18), Some((9, 18, Some(13))));
}

#[test]
fn steps_are_offered_where_nothing_can_be_captured() {
    let game = game_with(&[(9, Piece::X), (18, Piece::O)], false);
    assert_eq!(game.possible_moves(), vec![(9, 12, None), (9, 13, None)]);
}

#[test]
fn multi_jump_is_continued_by_the_same_piece() {
    let mut game = game_with(
        &[
            (1, Piece::X),
            (3, Piece::X),
            (4, Piece::O),
            (5, Piece::O),
            (6, Piece::O),
            (12, Piece::O),
        ],
        false,
    );
    assert_eq!(
        game.possible_moves(),
        vec![(1, 8, Some(4)), (1, 10, Some(5)), (3, 10, Some(6))]
    );
    let opponent_next = game.execute_move(&(1, 8, Some(4)), false);
    assert!(opponent_next);
    assert!(!game.is_o_turn);
    assert_eq!(game.last_skip, Some(8));
    let moves = game.possible_moves();
    assert_eq!(moves, vec![(8, 17, Some(12))]);
    assert!(moves.iter().all(|m| m.0 == 8));
    // The capture by the other piece is not offered while the jump goes on.
    assert!(game.valid_move(3, 10).is_none());
    game.execute_move(&(8, 17, Some(12)), false);
    assert_eq!(game.last_skip, None);
    assert!(game.is_o_turn);
}

#[test]
fn capture_takes_one_piece_from_the_other_side() {
    let mut game = CheckersGame::new();
    game.execute_move(&(20, 17, None), false);
    assert_eq!((count(&game, false), count(&game, true)), (12, 12));
    game.execute_move(&(9, 12, None), false);
    game.execute_move(&(21, 18, None), false);
    assert_eq!((count(&game, false), count(&game, true)), (12, 12));
    game.execute_move(&(12, 21, Some(17)), false);
    assert_eq!((count(&game, false), count(&game, true)), (12, 11));
    assert_eq!(game.board[17], None);
    assert_eq!(game.board[12], None);
    assert_eq!(game.board[21], Some(Piece::X));
}

#[test]
fn man_is_crowned_in_its_far_row() {
    let mut game = game_with(&[(24, Piece::X), (0, Piece::O)], false);
    game.execute_move(&(24, 28, None), false);
    assert_eq!(game.board[28], Some(Piece::XKing));
    assert_eq!(game.board[24], None);

    let mut game = game_with(&[(5, Piece::O), (31, Piece::X)], true);
    game.execute_move(&(5, 1, None), false);
    assert_eq!(game.board[1], Some(Piece::OKing));
}

#[test]
fn king_stays_a_king() {
    let mut game = game_with(&[(28, Piece::XKing), (0, Piece::O)], false);
    assert_eq!(game.possible_moves(), vec![(28, 25, None), (28, 24, None)]);
    game.execute_move(&(28, 24, None), false);
    assert_eq!(game.board[24], Some(Piece::XKing));
    game.give_up_turn();
    game.execute_move(&(24, 20, None), false);
    assert_eq!(game.board[20], Some(Piece::XKing));
    game.give_up_turn();
    // Back into the far row and out of it again.
    game.execute_move(&(20, 24, None), false);
    game.give_up_turn();
    game.execute_move(&(24, 28, None), false);
    assert_eq!(game.board[28], Some(Piece::XKing));
    // A king of O that visits the top row stays what it is, too.
    let mut game = game_with(&[(4, Piece::OKing), (31, Piece::X)], true);
    game.execute_move(&(4, 0, None), false);
    assert_eq!(game.board[0], Some(Piece::OKing));
    game.give_up_turn();
    game.execute_move(&(0, 4, None), false);
    assert_eq!(game.board[4], Some(Piece::OKing));
}

#[test]
fn king_moves_and_captures_both_ways() {
    let game = game_with(&[(13, Piece::XKing), (9, Piece::O), (31, Piece::O)], false);
    // Backward capture over 9, landing on 4.
    assert_eq!(game.possible_moves(), vec![(13, 4, Some(9))]);
    let game = game_with(&[(13, Piece::XKing), (31, Piece::O)], false);
    assert_eq!(
        game.possible_positions_no_jump(13),
        vec![(13, 18, None), (13, 10, None), (13, 17, None), (13, 9, None)]
    );
    let game = game_with(&[(9, Piece::OKing), (0, Piece::X)], true);
    assert_eq!(
        game.possible_positions_no_jump(9),
        vec![(9, 12, None), (9, 4, None), (9, 13, None), (9, 5, None)]
    );
}

#[test]
fn men_do_not_move_backward() {
    let game = game_with(&[(13, Piece::X), (9, Piece::O), (31, Piece::O)], false);
    assert_eq!(game.possible_positions_jump(13), vec![]);
    assert_eq!(game.possible_moves().len(), 2);
    let game = game_with(&[(13, Piece::O), (17, Piece::X), (18, Piece::X)], true);
    assert_eq!(game.possible_positions_jump(13), vec![]);
}

#[test]
fn moves_stop_at_the_edges() {
    // Left edge of an even row, right edge of an odd row, top and bottom rows.
    let game = game_with(&[(8, Piece::XKing), (31, Piece::O)], false);
    assert_eq!(game.possible_positions_no_jump(8), vec![(8, 12, None), (8, 4, None)]);
    let game = game_with(&[(15, Piece::XKing), (0, Piece::O)], false);
    assert_eq!(game.possible_positions_no_jump(15), vec![(15, 19, None), (15, 11, None)]);
    let game = game_with(&[(0, Piece::XKing), (31, Piece::O)], false);
    assert_eq!(game.possible_positions_no_jump(0), vec![(0, 4, None)]);
    let game = game_with(&[(31, Piece::XKing), (0, Piece::O)], false);
    assert_eq!(game.possible_positions_no_jump(31), vec![(31, 27, None)]);
    // A piece on the edge cannot be jumped.
    let game = game_with(&[(11, Piece::X), (15, Piece::O)], false);
    assert_eq!(game.possible_positions_jump(11), vec![]);
    // Nor can a piece be jumped onto an occupied square.
    let game = game_with(&[(9, Piece::X), (13, Piece::O), (18, Piece::O)], false);
    assert_eq!(game.possible_positions_jump(9), vec![]);
    let game = game_with(&[(4, Piece::XKing), (0, Piece::O), (8, Piece::O)], false);
    assert_eq!(game.possible_positions_jump(4), vec![]);
}

#[test]
fn jumps_come_left_before_right_and_down_before_up() {
    let game = game_with(
        &[
            (13, Piece::XKing),
            (8, Piece::O),
            (9, Piece::O),
            (17, Piece::O),
            (18, Piece::O),
            (31, Piece::O),
        ],
        false,
    );
    // 13 is on an odd row: its neighbours are 17 and 18 below, 9 and 10 above.
    assert_eq!(
        game.possible_positions_jump(13),
        vec![(13, 20, Some(17)), (13, 4, Some(9)), (13, 22, Some(18))]
    );
}

#[test]
fn heuristic_is_negated_by_mirroring() {
    let game = game_with(
        &[(1, Piece::X), (5, Piece::XKing), (9, Piece::X), (20, Piece::O), (30, Piece::OKing)],
        false,
    );
    assert_eq!(game.heuristic(), 1);
    let other = mirrored(&game);
    assert_eq!(other.board[30], Some(Piece::O));
    assert_eq!(other.board[1], Some(Piece::XKing));
    assert_eq!(other.heuristic(), -1);
    let opening = CheckersGame::new();
    assert_eq!(mirrored(&opening).heuristic(), 0);
    assert_eq!(mirrored(&opening).board, opening.board);
}

#[test]
fn heuristic_counts_men_and_kings_alike() {
    let game = game_with(&[(1, Piece::XKing), (2, Piece::X), (20, Piece::O)], false);
    assert_eq!(game.heuristic(), 1);
    let game = game_with(&[(20, Piece::OKing), (21, Piece::O)], true);
    assert_eq!(game.heuristic(), -2);
    assert_eq!(game_with(&[], true).heuristic(), 0);
}

#[test]
fn clone_is_independent_of_the_state_copied() {
    let first = CheckersGame::new();
    let mut copy = first.clone();
    assert_eq!(copy, first);
    copy.execute_move(&(20, 16, None), false);
    copy.give_up_turn();
    copy.check_winner();
    assert_eq!(first, CheckersGame::new());
    assert_eq!(first.board[20], Some(Piece::O));
    assert_eq!(first.board[16], None);
    assert!(first.is_o_turn);
    assert_ne!(copy, first);
}

#[test]
fn winner_goes_by_the_pieces_left() {
    let mut game = CheckersGame::new();
    assert_eq!(game.is_o_winner(), None);
    game.check_winner();
    assert_eq!(game.who_won(), None);

    let mut game = game_with(&[(3, Piece::O), (9, Piece::OKing)], false);
    assert_eq!(game.is_o_winner(), Some(true));
    game.check_winner();
    assert_eq!(game.who_won(), Some("O"));

    let mut game = game_with(&[(31, Piece::X)], true);
    assert_eq!(game.is_o_winner(), Some(false));
    game.check_winner();
    assert_eq!(game.who_won(), Some("X"));

    // With no piece on the board at all, X is named.
    let mut game = game_with(&[], true);
    assert_eq!(game.is_o_winner(), Some(false));
    game.check_winner();
    assert_eq!(game.who_won(), Some("X"));
}

#[test]
fn execute_move_leaves_the_recorded_winner() {
    let mut game = game_with(&[(9, Piece::X), (13, Piece::O)], false);
    game.execute_move(&(9, 18, Some(13)), false);
    assert_eq!(game.who_won(), None);
    game.check_winner();
    assert_eq!(game.who_won(), Some("X"));
}

#[test]
fn give_up_turn_flips_the_side_only() {
    let mut game = CheckersGame::new();
    let board = game.board;
    game.give_up_turn();
    assert!(game.is_opponent_turn());
    assert_eq!(game.board, board);
    game.give_up_turn();
    assert!(!game.is_opponent_turn());
}

#[test]
fn play_applies_a_legal_move_and_refuses_others() {
    let mut game = CheckersGame::new();
    assert_eq!(game.play(17, 17), None);
    assert_eq!(game.play(20, 15), None);
    assert_eq!(game.play(9, 12), None);
    assert_eq!(game, CheckersGame::new());
    assert_eq!(game.play(20, 17), Some((20, 17, None)));
    assert_eq!(game.board[17], Some(Piece::O));
    assert!(game.is_opponent_turn());
    assert_eq!(game.who_won(), None);

    let mut game = game_with(&[(9, Piece::X), (13, Piece::O)], false);
    assert_eq!(game.play(9, 12), None);
    assert_eq!(game.play(9, 18), Some((9, 18, Some(13))));
    assert_eq!(game.who_won(), Some("X"));
}

#[test]
fn search_depth_is_six_plies_a_level() {
    assert_eq!(CheckersGame::search_depth(0), 0);
    assert_eq!(CheckersGame::search_depth(1), 6);
    assert_eq!(CheckersGame::search_depth(4), 24);
}

#[test]
fn empty_square_has_no_captures() {
    let game = game_with(&[(9, Piece::X), (13, Piece::O)], false);
    assert_eq!(game.possible_positions_jump(8), vec![]);
    assert_eq!(game.possible_positions_jump(31), vec![]);
    assert_eq!(game.possible_positions_jump(9), vec![(9, 18, Some(13))]);
}

#[test]
fn captures_jump_pieces_of_the_side_not_to_move() {
    // With O to move, the X on 9 is what a piece on 13 jumps, and an O is not.
    let game = game_with(&[(13, Piece::O), (9, Piece::X), (10, Piece::O)], true);
    assert_eq!(game.possible_positions_jump(13), vec![(13, 4, Some(9))]);
    assert_eq!(game.possible_moves(), vec![(13, 4, Some(9))]);
}

#[test]
fn states_of_a_game_are_valid() {
    let mut game = CheckersGame::new();
    assert!(game.is_valid());
    game.execute_move(&(20, 17, None), false);
    assert!(game.is_valid());
    let mut game = game_with(
        &[(1, Piece::X), (4, Piece::O), (12, Piece::O), (31, Piece::O)],
        false,
    );
    assert!(game.is_valid());
    game.execute_move(&(1, 8, Some(4)), false);
    assert_eq!(game.last_skip, Some(8));
    assert!(game.is_valid());
}

#[test]
fn states_set_by_hand_may_be_invalid() {
    let mut game = CheckersGame::new();
    game.last_skip = Some(40);
    assert!(!game.is_valid());
    game.last_skip = Some(16);
    assert!(!game.is_valid());
    // A piece of the side that is not to move.
    game.last_skip = Some(9);
    assert!(!game.is_valid());
    // A piece of the side to move that has nothing to capture.
    game.last_skip = Some(20);
    assert!(!game.is_valid());
}

#[test]
fn mirrored_position_has_the_mirrored_moves() {
    let game = game_with(
        &[
            (1, Piece::X),
            (3, Piece::XKing),
            (9, Piece::X),
            (13, Piece::O),
            (22, Piece::OKing),
            (30, Piece::O),
        ],
        false,
    );
    let other = mirrored(&game);
    let mut expected: Vec<Move> = game
        .possible_moves()
        .iter()
        .map(|m| (31 - m.0, 31 - m.1, m.2.map(|over| 31 - over)))
        .collect();
    let mut found = other.possible_moves();
    expected.sort();
    found.sort();
    assert!(!found.is_empty());
    assert_eq!(found, expected);

    let opening = CheckersGame::new();
    let mut game = opening.clone();
    game.give_up_turn();
    let mut expected: Vec<Move> = opening
        .possible_moves()
        .iter()
        .map(|m| (31 - m.0, 31 - m.1, m.2.map(|over| 31 - over)))
        .collect();
    let mut found = game.possible_moves();
    expected.sort();
    found.sort();
    assert_eq!(found, expected);
}

#[test]
fn moves_are_listed_once() {
    let game = game_with(
        &[
            (13, Piece::XKing),
            (8, Piece::O),
            (9, Piece::O),
            (17, Piece::O),
            (18, Piece::O),
            (5, Piece::X),
        ],
        false,
    );
    let moves = game.possible_moves();
    for (i, m) in moves.iter().enumerate() {
        assert!(!moves[..i].contains(m));
        assert_eq!(game.valid_move(m.0, m.1), Some(*m));
    }
}
