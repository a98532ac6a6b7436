use game_tree::checkers::{CheckersGame, Piece};
use game_tree::HeuristicGameTree;

#[test]
fn no_winner_test() {
    let check_1 = CheckersGame::new();
    assert!(check_1.who_won().is_none());
}

#[test]
fn print_board_test() {
    let game = CheckersGame::new();
    assert_eq!(
        &game.print_board(),
        &"  A B C D E F G H
1 x   x   x   x
2   x   x   x   x
3 x   x   x   x
4                
5              
6   o   o   o   o
7 o   o   o   o
8   o   o   o   o
"
        .to_owned()
    );
}

#[test]
fn move_piece_test() {
    let mut game = CheckersGame::new();
    game.execute_move(&(20, 16, None), false);
    assert_eq!(
        &game.print_board(),
        &"  A B C D E F G H
1 x   x   x   x
2   x   x   x   x
3 x   x   x   x
4                
5 o            
6       o   o   o
7 o   o   o   o
8   o   o   o   o
"
        .to_owned()
    );
}

#[test]
fn jump_piece_test() {
    let mut game = CheckersGame::new();
    game.execute_move(&(20, 17, None), false);
    game.execute_move(&(9, 12, None), false);
    game.execute_move(&(21, 18, None), false);
    game.execute_move(&(12, 21, Some(17)), false);
    assert_eq!(
        &game.print_board(),
        &"  A B C D E F G H
1 x   x   x   x
2   x   x   x   x
3 x       x   x
4                
5         o    
6       x   o   o
7 o   o   o   o
8   o   o   o   o
"
        .to_owned()
    );
}

#[test]
fn valid_move_test() {
    let game = CheckersGame::new();
    assert!(game.valid_move(20, 17).is_some());
}

#[test]
fn invalid_move_test() {
    let game = CheckersGame::new();
    assert!(game.valid_move(17, 17).is_none());
}

#[test]
fn force_jump_test() {
    let mut game = CheckersGame::new();
    game.execute_move(&(20, 17, None), false);
    game.execute_move(&(9, 12, None), false);
    game.execute_move(&(21, 18, None), false);
    let moves: Vec<(usize, usize, Option<usize>)> = game.possible_moves();
    assert_eq!(moves.len(), 1);
    // Only allows one move, the jump move, see board in jump_piece_test()
}

#[test]
fn force_repeated_jump_test() {
    let mut game = CheckersGame::new();
    game.board = [
        None, Some(Piece::X), None, Some(Piece::X),
        Some(Piece::O), Some(Piece::O), Some(Piece::O), None,
        None, None, None, None,
        Some(Piece::O), None, None, None,
        None, None, None, None,
        None, None, None, None,
        None, None, None, None,
        None, None, None, None,
    ];
    game.is_o_turn = false;
    // easier than trying to move the board into this position
    let moves: Vec<(usize, usize, Option<usize>)> = game.possible_moves();
    assert_eq!(moves.len(), 3);
    // Do one jump
    game.execute_move(&(1, 8, Some(4)), false);
    let moves: Vec<(usize, usize, Option<usize>)> = game.possible_moves();
    // Only one jump available from the piece that just jumped.
    assert_eq!(moves.len(), 1);
    assert!(game.is_opponent_turn());
}

#[test]
fn heuristic_test() {
    let mut game = CheckersGame::new();
    assert_eq!(game.heuristic(), 0);
    game.execute_move(&(20, 17, None), false);
    assert_eq!(game.heuristic(), 0);
    game.execute_move(&(9, 12, None), false);
    assert_eq!(game.heuristic(), 0);
    game.execute_move(&(21, 18, None), false);
    assert_eq!(game.heuristic(), 0);
    game.execute_move(&(12, 21, Some(17)), false);
    assert_eq!(game.heuristic(), 1);
}

#[test]
fn make_kings_test() {
    let mut game = CheckersGame::new();
    game.board = [
        None, Some(Piece::X), None, Some(Piece::O),
        Some(Piece::X), Some(Piece::O), None, None,
        None, None, None, None,
        None, None, None, None,
        None, None, None, None,
        None, None, None, None,
        None, None, None, None,
        None, Some(Piece::X), None, Some(Piece::O),
    ];
    game.maybe_make_king(1); // x on its own side (no)
    game.maybe_make_king(3); // o on opposite side (yes)
    game.maybe_make_king(4); // not on end (no)
    game.maybe_make_king(5); // not on end (no)
    game.maybe_make_king(29); // x on opposite side (yes)
    game.maybe_make_king(31); // o on its own side (no)
    assert!(!game.board[1].clone().unwrap().is_king());
    assert!(game.board[3].clone().unwrap().is_king());
    assert!(game.board[29].clone().unwrap().is_king());
    assert!(!game.board[31].clone().unwrap().is_king());
    assert!(!game.board[4].clone().unwrap().is_king());
    assert!(!game.board[5].clone().unwrap().is_king());
}
