use game_tree::checkers::{print_piece, CheckersGame, Piece};
use game_tree::notation::{parse_move, parse_square};

#[test]
fn print_piece_gives_one_character() {
    assert_eq!(print_piece(&None), " ");
    assert_eq!(print_piece(&Some(Piece::X)), "x");
    assert_eq!(print_piece(&Some(Piece::O)), "o");
    assert_eq!(print_piece(&Some(Piece::XKing)), "X");
    assert_eq!(print_piece(&Some(Piece::OKing)), "O");
}

#[test]
fn kings_are_printed_in_capitals() {
    let mut game = CheckersGame::new();
    game.board = [None; 32];
    game.board[0] = Some(Piece::XKing);
    game.board[7] = Some(Piece::OKing);
    game.board[28] = Some(Piece::X);
    game.board[31] = Some(Piece::O);
    assert_eq!(
        game.print_board(),
        "  A B C D E F G H\n\
         1 X            \n\
         2               O\n\
         3              \n\
         4                \n\
         5              \n\
         6                \n\
         7              \n\
         8   x           o\n"
    );
}

#[test]
fn every_square_is_printed_where_it_is_named() {
    for square in 0..32usize {
        let mut game = CheckersGame::new();
        game.board = [None; 32];
        game.board[square] = Some(Piece::XKing);
        let text = game.print_board();
        let lines: Vec<&str> = text.lines().collect();
        assert_eq!(lines.len(), 9);
        let header = lines[0].as_bytes();
        let mut found = None;
        for (row, line) in lines[1..].iter().enumerate() {
            for (column, byte) in line.bytes().enumerate() {
                if byte == b'X' {
                    assert_eq!(found, None);
                    found = Some((header[column], line.as_bytes()[0], row));
                }
            }
        }
        let (letter, digit, row) = found.unwrap();
        assert_eq!(row, square / 4);
        assert_eq!(parse_square(letter, digit), Some(square));
    }
}

#[test]
fn squares_are_named_by_file_and_row() {
    assert_eq!(parse_square(b'B', b'6'), Some(20));
    assert_eq!(parse_square(b'A', b'5'), Some(16));
    assert_eq!(parse_square(b'A', b'1'), Some(0));
    assert_eq!(parse_square(b'G', b'1'), Some(3));
    assert_eq!(parse_square(b'B', b'2'), Some(4));
    assert_eq!(parse_square(b'H', b'8'), Some(31));
    assert_eq!(parse_square(b'D', b'4'), Some(13));
}

#[test]
fn file_letters_are_read_in_either_case() {
    assert_eq!(parse_square(b'b', b'6'), Some(20));
    assert_eq!(parse_square(b'a', b'1'), Some(0));
    assert_eq!(parse_square(b'h', b'8'), Some(31));
}

#[test]
fn light_squares_are_refused() {
    assert_eq!(parse_square(b'A', b'6'), None);
    assert_eq!(parse_square(b'B', b'1'), None);
    assert_eq!(parse_square(b'H', b'1'), None);
    assert_eq!(parse_square(b'a', b'8'), None);
    let mut dark = 0;
    for letter in b'A'..=b'H' {
        for digit in b'1'..=b'8' {
            if parse_square(letter, digit).is_some() {
                dark += 1;
            }
        }
    }
    assert_eq!(dark, 32);
}

#[test]
fn letters_and_digits_off_the_board_are_refused() {
    assert_eq!(parse_square(b'I', b'1'), None);
    assert_eq!(parse_square(b'@', b'1'), None);
    assert_eq!(parse_square(b'i', b'1'), None);
    assert_eq!(parse_square(b'`', b'1'), None);
    assert_eq!(parse_square(b'A', b'0'), None);
    assert_eq!(parse_square(b'A', b'9'), None);
    assert_eq!(parse_square(b'1', b'A'), None);
    assert_eq!(parse_square(0, 0), None);
    assert_eq!(parse_square(255, 255), None);
}

#[test]
fn moves_are_named_by_two_squares() {
    assert_eq!(parse_move(b"B6 A5"), Some((20, 16)));
    assert_eq!(parse_move(b"B6 C5"), Some((20, 17)));
    assert_eq!(parse_move(b"b6 a5\n"), Some((20, 16)));
    assert_eq!(parse_move(b"B6\tA5\r\n"), Some((20, 16)));
    assert_eq!(parse_move(b"A1 H8  \n"), Some((0, 31)));
}

#[test]
fn malformed_moves_are_refused() {
    assert_eq!(parse_move(b""), None);
    assert_eq!(parse_move(b"B6"), None);
    assert_eq!(parse_move(b"B6 A"), None);
    assert_eq!(parse_move(b"B6A5 "), None);
    assert_eq!(parse_move(b"B6-A5"), None);
    assert_eq!(parse_move(b"B6 A5x"), None);
    assert_eq!(parse_move(b"B6 A5 C4"), None);
    assert_eq!(parse_move(b" B6 A5"), None);
    assert_eq!(parse_move(b"A6 A5"), None);
    assert_eq!(parse_move(b"B6 B5"), None);
    assert_eq!(parse_move(b"B9 A5"), None);
    assert_eq!(parse_move(b"6B 5A"), None);
}

#[test]
fn a_named_move_can_be_played() {
    let mut game = CheckersGame::new();
    let (from, to) = parse_move(b"B6 A5\n").unwrap();
    assert_eq!(game.play(from, to), Some((20, 16, None)));
    assert_eq!(
        game.print_board(),
        "  A B C D E F G H\n\
         1 x   x   x   x\n\
         2   x   x   x   x\n\
         3 x   x   x   x\n\
         4                \n\
         5 o            \n\
         6       o   o   o\n\
         7 o   o   o   o\n\
         8   o   o   o   o\n"
    );
}
