use game_tree::tictactoe::{Piece, TicGame};
use game_tree::HeuristicGameTree;

fn grid(marks: &[(usize, Piece)]) -> TicGame {
    let mut game = TicGame::new();
    for (at, mark) in marks {
        game.store_move(*at, *mark);
    }
    game
}

#[test]
fn new_grid_is_empty() {
    let game = TicGame::new();
    assert_eq!(game.board, [Piece::Empty; 9]);
    assert_eq!(game.winner, None);
    assert_eq!(game.moves, 0);
}

#[test]
fn pieces_answer_for_themselves() {
    assert!(Piece::X.is_x() && !Piece::X.is_o() && !Piece::X.is_none());
    assert!(Piece::O.is_o() && !Piece::O.is_x() && !Piece::O.is_none());
    assert!(Piece::Empty.is_none() && !Piece::Empty.is_x() && !Piece::Empty.is_o());
    assert!(!Piece::Tie.is_x() && !Piece::Tie.is_o() && !Piece::Tie.is_none());
    assert_eq!(Piece::X.val(), "X");
    assert_eq!(Piece::O.val(), "O");
    assert_eq!(Piece::Empty.val(), "");
    assert_eq!(Piece::Tie.val(), "Tie");
}

#[test]
fn cells_are_named_by_row_letter_and_column_number() {
    let game = TicGame::new();
    assert_eq!(game.validmove("A", 1), (true, 0));
    assert_eq!(game.validmove("A", 3), (true, 2));
    assert_eq!(game.validmove("B", 2), (true, 4));
    assert_eq!(game.validmove("C", 1), (true, 6));
    assert_eq!(game.validmove("C", 3), (true, 8));
}

#[test]
fn names_off_the_grid_and_taken_cells_are_refused() {
    let game = grid(&[(4, Piece::X)]);
    assert_eq!(game.validmove("B", 2), (false, 10));
    assert_eq!(game.validmove("D", 1), (false, 10));
    assert_eq!(game.validmove("a", 1), (false, 10));
    assert_eq!(game.validmove("", 1), (false, 10));
    assert_eq!(game.validmove("AB", 1), (false, 10));
    assert_eq!(game.validmove("A", 0), (false, 10));
    assert_eq!(game.validmove("A", 4), (false, 10));
    assert_eq!(game.validmove("B", 1), (true, 3));
}

#[test]
fn store_move_sets_a_mark_and_counts_it() {
    let mut game = TicGame::new();
    game.store_move(4, Piece::X);
    assert_eq!(game.board[4], Piece::X);
    assert_eq!(game.moves, 1);
    assert_eq!(game.winner, None);
    game.store_move(0, Piece::O);
    assert_eq!(game.board[0], Piece::O);
    assert_eq!(game.moves, 2);
}

#[test]
fn ninth_mark_records_a_tie() {
    let order = [0, 1, 2, 4, 3, 5, 7, 6, 8];
    let mut game = TicGame::new();
    for (n, cell) in order.iter().enumerate() {
        assert_eq!(game.winner, None);
        game.store_move(*cell, if n % 2 == 0 { Piece::X } else { Piece::O });
    }
    assert_eq!(game.moves, 9);
    assert_eq!(game.winner, Some(Piece::Tie));
    assert_eq!(game.possible_moves(), vec![]);
}

#[test]
fn each_of_the_eight_lines_wins() {
    let lines = [
        [0, 1, 2],
        [3, 4, 5],
        [6, 7, 8],
        [0, 3, 6],
        [1, 4, 7],
        [2, 5, 8],
        [0, 4, 8],
        [2, 4, 6],
    ];
    for line in lines {
        let game = grid(&[(line[0], Piece::O), (line[1], Piece::O), (line[2], Piece::O)]);
        assert!(game.check_win(Piece::O));
        assert!(!game.check_win(Piece::X));
        let game = grid(&[(line[0], Piece::O), (line[1], Piece::X), (line[2], Piece::O)]);
        assert!(!game.check_win(Piece::O));
        assert!(!game.check_win(Piece::X));
    }
    assert!(!TicGame::new().check_win(Piece::X));
    assert!(!grid(&[(0, Piece::X), (1, Piece::X), (5, Piece::X)]).check_win(Piece::X));
}

#[test]
fn legal_moves_are_the_empty_cells_in_order() {
    assert_eq!(TicGame::new().possible_moves(), vec![0, 1, 2, 3, 4, 5, 6, 7, 8]);
    let game = grid(&[(0, Piece::X), (4, Piece::O), (8, Piece::X)]);
    assert_eq!(game.possible_moves(), vec![1, 2, 3, 5, 6, 7]);
}

#[test]
fn heuristic_scores_the_open_lines() {
    assert_eq!(TicGame::new().heuristic(), 0);
    assert_eq!(grid(&[(4, Piece::X)]).heuristic(), 4);
    assert_eq!(grid(&[(0, Piece::X)]).heuristic(), 3);
    assert_eq!(grid(&[(1, Piece::X)]).heuristic(), 2);
    assert_eq!(grid(&[(4, Piece::O)]).heuristic(), -4);
    assert_eq!(grid(&[(4, Piece::X), (0, Piece::O)]).heuristic(), 1);
    assert_eq!(grid(&[(0, Piece::X), (1, Piece::X)]).heuristic(), 13);
    assert_eq!(grid(&[(0, Piece::X), (1, Piece::X), (2, Piece::X)]).heuristic(), 105);
    assert_eq!(grid(&[(0, Piece::O), (1, Piece::O), (2, Piece::O)]).heuristic(), -105);
}

#[test]
fn heuristic_is_negated_by_exchanging_the_marks() {
    let game = grid(&[(0, Piece::X), (4, Piece::O), (8, Piece::X), (2, Piece::O), (6, Piece::X)]);
    let other = grid(&[(0, Piece::O), (4, Piece::X), (8, Piece::O), (2, Piece::X), (6, Piece::O)]);
    assert_eq!(game.heuristic(), -other.heuristic());
}

#[test]
fn execute_move_sets_the_mark_of_the_side_named() {
    let mut game = TicGame::new();
    assert!(game.execute_move(&4, false));
    assert_eq!(game.board[4], Piece::X);
    assert!(!game.execute_move(&0, true));
    assert_eq!(game.board[0], Piece::O);
    assert_eq!(game.moves, 2);
}

#[test]
fn grid_is_printed_with_its_marks() {
    assert_eq!(TicGame::new().printboard(), "  1  2  3\nA     \nB     \nC     \n");
    let game = grid(&[(0, Piece::X), (4, Piece::O), (8, Piece::X), (5, Piece::O)]);
    assert_eq!(game.printboard(), "  1  2  3\nA X    \nB   O  O\nC     X\n");
}

#[test]
fn round_sets_both_marks() {
    let mut game = TicGame::new();
    assert_eq!(game.round("B", 2, 1), (true, Some(0)));
    assert_eq!(game.board[4], Piece::X);
    assert_eq!(game.board[0], Piece::O);
    assert_eq!(game.moves, 2);
    assert_eq!(game.winner, None);
}

#[test]
fn round_refuses_a_taken_cell() {
    let mut game = grid(&[(4, Piece::X), (0, Piece::O)]);
    let before = game.clone();
    assert_eq!(game.round("B", 2, 3), (false, None));
    assert_eq!(game.round("A", 1, 3), (false, None));
    assert_eq!(game.round("Z", 1, 3), (false, None));
    assert_eq!(game.round("A", 7, 3), (false, None));
    assert_eq!(game, before);
}

#[test]
fn round_ends_when_the_player_completes_a_line() {
    let mut game = grid(&[(0, Piece::X), (3, Piece::O), (1, Piece::X), (4, Piece::O)]);
    assert_eq!(game.round("A", 3, 3), (true, None));
    assert_eq!(game.winner, Some(Piece::X));
    assert_eq!(game.moves, 5);
    assert_eq!(game.board[5], Piece::Empty);
}

#[test]
fn round_records_a_line_of_the_opponent() {
    let mut game = grid(&[(3, Piece::X), (0, Piece::O), (4, Piece::X), (1, Piece::O)]);
    assert_eq!(game.round("C", 3, 0), (true, Some(2)));
    assert_eq!(game.board[8], Piece::X);
    assert_eq!(game.board[2], Piece::O);
    assert_eq!(game.winner, Some(Piece::O));
    assert_eq!(game.moves, 6);
}

#[test]
fn round_on_the_last_cell_records_a_tie() {
    let mut game = grid(&[
        (0, Piece::X),
        (1, Piece::O),
        (2, Piece::X),
        (4, Piece::O),
        (3, Piece::X),
        (5, Piece::O),
        (7, Piece::X),
        (6, Piece::O),
    ]);
    assert_eq!(game.round("C", 3, 2), (true, None));
    assert_eq!(game.winner, Some(Piece::Tie));
    assert_eq!(game.moves, 9);
}

#[test]
fn search_depth_is_three_plies_a_level() {
    assert_eq!(TicGame::search_depth(0), 0);
    assert_eq!(TicGame::search_depth(1), 3);
    assert_eq!(TicGame::search_depth(5), 15);
}
