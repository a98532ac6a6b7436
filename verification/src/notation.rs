//! The board as text, and squares as players name them.
//!
//! A board is printed as nine lines: the files `A` to `H` above, then the
//! rows `1` to `8` from the top, each dark square two columns wide. A player
//! names a square by its file letter and its row digit, as in `B6`, and a
//! move by two squares, as in `B6 A5`.

use vstd::prelude::*;
use vstd::string::*;
use crate::checkers::{glyph, print_piece, CheckersGame, Piece};
use crate::geometry::{file_of, lemma_square_at_own_coordinates, on_board, row_of, square_at};

verus! {

/// The first line of a printed board: the file letters.
pub open spec fn header_text() -> Seq<char> {
    seq![
        ' ',
        ' ',
        'A',
        ' ',
        'B',
        ' ',
        'C',
        ' ',
        'D',
        ' ',
        'E',
        ' ',
        'F',
        ' ',
        'G',
        ' ',
        'H',
        '\n',
    ]
}

/// The digit that labels row `row` (0 at the top): `1` to `8`.
pub open spec fn row_digit(row: int) -> char {
    if row == 0 {
        '1'
    } else if row == 1 {
        '2'
    } else if row == 2 {
        '3'
    } else if row == 3 {
        '4'
    } else if row == 4 {
        '5'
    } else if row == 5 {
        '6'
    } else if row == 6 {
        '7'
    } else {
        '8'
    }
}

/// The three spaces that stand between two dark squares of a row.
pub open spec fn gap_text() -> Seq<char> {
    seq![' ', ' ', ' ']
}

/// `text` followed by the line that shows row `row` of a board: the row's
/// digit, then its four squares three spaces apart, the first one space
/// after the digit in an even row and three spaces after it in an odd row.
pub open spec fn with_row(text: Seq<char>, board: Seq<Option<Piece>>, row: int) -> Seq<char> {
    text + seq![row_digit(row)] + (if row % 2 == 0 {
        seq![' ']
    } else {
        gap_text()
    }) + seq![glyph(board[4 * row])] + gap_text() + seq![glyph(board[4 * row + 1])] + gap_text()
        + seq![glyph(board[4 * row + 2])] + gap_text() + seq![glyph(board[4 * row + 3])] + seq![
        '\n',
    ]
}

/// The header and the first `rows` rows of a printed board.
pub open spec fn rows_text(board: Seq<Option<Piece>>, rows: nat) -> Seq<char>
    decreases rows,
{
    if rows == 0 {
        header_text()
    } else {
        with_row(rows_text(board, (rows - 1) as nat), board, rows - 1)
    }
}

/// A board as text: the header and the eight rows.
pub open spec fn board_text(board: Seq<Option<Piece>>) -> Seq<char> {
    rows_text(board, 8)
}

/// Where the line of row `row` begins in the text of a board.
pub open spec fn line_start(row: int) -> int {
    18 + 34 * (row / 2) + 16 * (row % 2)
}

/// Where a file stands in a line of the text of a board: two columns to a
/// file, after the label and a space.
pub open spec fn file_column(file: int) -> int {
    2 + 2 * file
}

/// The letter that names file `file`: `A` to `H`.
pub open spec fn file_letter(file: int) -> char {
    if file == 0 {
        'A'
    } else if file == 1 {
        'B'
    } else if file == 2 {
        'C'
    } else if file == 3 {
        'D'
    } else if file == 4 {
        'E'
    } else if file == 5 {
        'F'
    } else if file == 6 {
        'G'
    } else {
        'H'
    }
}

/// A line added to a text leaves the text before it as it was, begins with
/// the digit of its row and shows each square of the row in the column of
/// its file.
pub proof fn lemma_with_row(text: Seq<char>, board: Seq<Option<Piece>>, row: int, i: int)
    requires
        board.len() == 32,
        0 <= row < 8,
        row_of(i) == row,
        on_board(i),
    ensures
        with_row(text, board, row).len() == text.len() + if row % 2 == 0 {
            16int
        } else {
            18int
        },
        forall|j: int| 0 <= j < text.len() ==> with_row(text, board, row)[j] == text[j],
        with_row(text, board, row)[text.len() as int] == row_digit(row),
        with_row(text, board, row)[text.len() + file_column(file_of(i))] == glyph(board[i]),
{
    let lead = text + seq![row_digit(row)] + (if row % 2 == 0 {
        seq![' ']
    } else {
        gap_text()
    });
    let a = lead + seq![glyph(board[4 * row])];
    let b = a + gap_text() + seq![glyph(board[4 * row + 1])];
    let c = b + gap_text() + seq![glyph(board[4 * row + 2])];
    let d = c + gap_text() + seq![glyph(board[4 * row + 3])];
    assert(with_row(text, board, row) == d + seq!['\n']);
    assert(i == 4 * row + i % 4);
}

/// Each line begins where the line before it ends: 16 characters on after
/// an even row, 18 after an odd row.
pub proof fn lemma_line_start_next(row: int)
    requires
        0 <= row,
    ensures
        line_start(row + 1) == line_start(row) + if row % 2 == 0 {
            16int
        } else {
            18int
        },
        line_start(0) == 18,
{
}

/// The text of the first rows of a board has the length that its lines add
/// up to.
pub proof fn lemma_rows_text_len(board: Seq<Option<Piece>>, rows: nat)
    requires
        board.len() == 32,
        rows <= 8,
    ensures
        rows_text(board, rows).len() == line_start(rows as int),
    decreases rows,
{
    if rows > 0 {
        lemma_rows_text_len(board, (rows - 1) as nat);
        lemma_line_start_next(rows - 1);
        lemma_with_row(rows_text(board, (rows - 1) as nat), board, rows - 1, 4 * (rows - 1));
    }
}

/// Further rows leave the text of the rows before them as it was.
pub proof fn lemma_rows_text_grows(board: Seq<Option<Piece>>, rows: nat, more: nat, j: int)
    requires
        board.len() == 32,
        rows <= more <= 8,
        0 <= j < line_start(rows as int),
    ensures
        rows_text(board, more)[j] == rows_text(board, rows)[j],
    decreases more,
{
    if more > rows {
        let before = rows_text(board, (more - 1) as nat);
        lemma_rows_text_grows(board, rows, (more - 1) as nat, j);
        lemma_rows_text_len(board, (more - 1) as nat);
        lemma_rows_text_len(board, rows);
        lemma_line_start_monotone(rows as int, more - 1);
        lemma_with_row(before, board, more - 1, 4 * (more - 1));
    }
}

/// Later lines begin further on.
pub proof fn lemma_line_start_monotone(row: int, later: int)
    requires
        0 <= row <= later,
    ensures
        line_start(row) <= line_start(later),
    decreases later - row,
{
    if row < later {
        lemma_line_start_next(later - 1);
        lemma_line_start_monotone(row, later - 1);
    }
}

/// A board is printed as a player reads it: each square stands in the line
/// that begins with the digit of its row, in the column under the letter of
/// its file.
pub proof fn lemma_squares_printed_where_named(board: Seq<Option<Piece>>, i: int)
    requires
        board.len() == 32,
        on_board(i),
    ensures
        board_text(board).len() == 154,
        board_text(board)[line_start(row_of(i)) + file_column(file_of(i))] == glyph(board[i]),
        board_text(board)[line_start(row_of(i))] == row_digit(row_of(i)),
        board_text(board)[file_column(file_of(i))] == file_letter(file_of(i)),
        square_named((65 + file_of(i)) as u8, (49 + row_of(i)) as u8) == Some(i),
{
    let row = row_of(i);
    let file = file_of(i);
    lemma_every_square_named(i);
    lemma_rows_text_len(board, 8);
    // The header.
    assert(rows_text(board, 0)[file_column(file)] == file_letter(file));
    lemma_rows_text_grows(board, 0, 8, file_column(file));
    // The line of the square's row.
    let before = rows_text(board, row as nat);
    lemma_rows_text_len(board, row as nat);
    lemma_rows_text_len(board, (row + 1) as nat);
    lemma_with_row(before, board, row, i);
    assert(rows_text(board, (row + 1) as nat) == with_row(before, board, row));
    lemma_line_start_next(row);
    lemma_rows_text_grows(board, (row + 1) as nat, 8, line_start(row));
    lemma_rows_text_grows(board, (row + 1) as nat, 8, line_start(row) + file_column(file));
}

/// The text of the digit that labels row `row`.
fn row_label(row: usize) -> (text: &'static str)
    requires
        row < 8,
    ensures
        text@ == seq![row_digit(row as int)],
{
    proof {
        reveal_strlit("1");
        reveal_strlit("2");
        reveal_strlit("3");
        reveal_strlit("4");
        reveal_strlit("5");
        reveal_strlit("6");
        reveal_strlit("7");
        reveal_strlit("8");
    }
    let text = if row == 0 {
        "1"
    } else if row == 1 {
        "2"
    } else if row == 2 {
        "3"
    } else if row == 3 {
        "4"
    } else if row == 4 {
        "5"
    } else if row == 5 {
        "6"
    } else if row == 6 {
        "7"
    } else {
        "8"
    };
    assert(text@ == seq![row_digit(row as int)]);
    text
}

impl CheckersGame {
    /// Appends the line that shows row `row` to `out`.
    fn print_row(&self, row: usize, out: &mut String)
        requires
            row < 8,
        ensures
            final(out)@ == with_row(old(out)@, self@.board, row as int),
    {
        proof {
            reveal_strlit(" ");
            reveal_strlit("   ");
            reveal_strlit("\n");
            assert(" "@ == seq![' ']);
            assert("   "@ == gap_text());
            assert("\n"@ == seq!['\n']);
        }
        let first = 4 * row;
        out.append(row_label(row));
        if row % 2 == 0 {
            out.append(" ");
        } else {
            out.append("   ");
        }
        out.append(print_piece(&self.board[first]));
        out.append("   ");
        out.append(print_piece(&self.board[first + 1]));
        out.append("   ");
        out.append(print_piece(&self.board[first + 2]));
        out.append("   ");
        out.append(print_piece(&self.board[first + 3]));
        out.append("\n");
    }

    /// The board as text: the file letters, then the eight rows.
    pub fn print_board(&self) -> (text: String)
        ensures
            text@ == board_text(self@.board),
    {
        proof {
            reveal_strlit("  A B C D E F G H\n");
        }
        let mut out = String::new();
        out.append("  A B C D E F G H\n");
        assert(out@ == header_text());
        let mut i: usize = 0;
        while i < 4
            invariant
                i <= 4,
                out@ == rows_text(self@.board, (2 * i) as nat),
            decreases 4 - i,
        {
            self.print_row(2 * i, &mut out);
            self.print_row(2 * i + 1, &mut out);
            assert(out@ == rows_text(self@.board, (2 * i + 2) as nat)) by {
                reveal_with_fuel(rows_text, 3);
            }
            i += 1;
        }
        out
    }
}

/// The file that a letter names: `A` to `H`, in either case, for the files
/// 0 to 7.
pub open spec fn file_named(letter: u8) -> Option<int> {
    if 65 <= letter <= 72 {
        Some(letter - 65)
    } else if 97 <= letter <= 104 {
        Some(letter - 97)
    } else {
        None
    }
}

/// The row that a digit names: `1` to `8`, for the rows 0 to 7.
pub open spec fn row_named(digit: u8) -> Option<int> {
    if 49 <= digit <= 56 {
        Some(digit - 49)
    } else {
        None
    }
}

/// The square that a file letter and a row digit name, if they name a
/// playable square.
pub open spec fn square_named(letter: u8, digit: u8) -> Option<int> {
    match (file_named(letter), row_named(digit)) {
        (Some(file), Some(row)) => square_at(file, row),
        _ => None,
    }
}

/// Whether a byte is a blank: a space, a tab, a line feed or a carriage
/// return.
pub open spec fn is_blank(byte: u8) -> bool {
    byte == 32 || byte == 9 || byte == 10 || byte == 13
}

/// The move that a line names: two squares, the first in the first two
/// bytes, a blank, the second in the next two bytes, and nothing but blanks
/// after it.
pub open spec fn move_named(line: Seq<u8>) -> Option<(int, int)> {
    if line.len() >= 5 && is_blank(line[2]) && (forall|i: int|
        5 <= i < line.len() ==> is_blank(#[trigger] line[i])) {
        match (square_named(line[0], line[1]), square_named(line[3], line[4])) {
            (Some(from), Some(to)) => Some((from, to)),
            _ => None,
        }
    } else {
        None
    }
}

/// Every square of the board has a name: its file letter and its row digit
/// name it.
pub proof fn lemma_every_square_named(i: int)
    requires
        on_board(i),
    ensures
        square_named((65 + file_of(i)) as u8, (49 + row_of(i)) as u8) == Some(i),
        square_named((97 + file_of(i)) as u8, (49 + row_of(i)) as u8) == Some(i),
{
    lemma_square_at_own_coordinates(i);
}

/// A name names at most one square, and that square is on the board.
pub proof fn lemma_named_square_on_board(letter: u8, digit: u8)
    ensures
        square_named(letter, digit) matches Some(i) ==> on_board(i) && file_named(letter) == Some(
            file_of(i),
        ) && row_named(digit) == Some(row_of(i)),
{
}

/// Reads a square from its file letter and row digit. Letters and digits
/// off the board are refused, and so are the light squares.
pub fn parse_square(letter: u8, digit: u8) -> (square: Option<usize>)
    ensures
        match square {
            Some(i) => square_named(letter, digit) == Some(i as int),
            None => square_named(letter, digit) is None,
        },
{
    let file: u8 = if 65 <= letter && letter <= 72 {
        letter - 65
    } else if 97 <= letter && letter <= 104 {
        letter - 97
    } else {
        return None;
    };
    if digit < 49 || digit > 56 {
        return None;
    }
    let row: u8 = digit - 49;
    if file % 2 != row % 2 {
        return None;
    }
    let index: u8 = 4 * row + file / 2;
    Some(index as usize)
}

/// Reads a move such as `B6 A5` from a line of input.
pub fn parse_move(line: &[u8]) -> (named: Option<(usize, usize)>)
    ensures
        match named {
            Some((from, to)) => move_named(line@) == Some((from as int, to as int)),
            None => move_named(line@) is None,
        },
{
    if line.len() < 5 {
        return None;
    }
    let separator: u8 = line[2];
    if !(separator == 32 || separator == 9 || separator == 10 || separator == 13) {
        return None;
    }
    let mut i: usize = 5;
    while i < line.len()
        invariant
            5 <= i <= line.len(),
            forall|j: int| 5 <= j < i ==> is_blank(#[trigger] line@[j]),
        decreases line.len() - i,
    {
        let byte: u8 = line[i];
        if !(byte == 32 || byte == 9 || byte == 10 || byte == 13) {
            return None;
        }
        i += 1;
    }
    match (parse_square(line[0], line[1]), parse_square(line[3], line[4])) {
        (Some(from), Some(to)) => Some((from, to)),
        _ => None,
    }
}

} // verus!
