//! Tic-tac-toe on a 3×3 grid: the marks, the game state and a scorer that
//! goes by the eight lines of the grid.
//!
//! The cells are numbered 0..9 in reading order. X is the player who is
//! asked for moves, O the opponent.

use vstd::prelude::*;
use vstd::string::*;
use crate::minimax::{is_choice, minimax_search, HeuristicGameTree};

verus! {

/// What a cell holds, and how a game has ended.
#[derive(Clone, Copy, Debug, PartialEq, Eq, Structural)]
pub enum Piece {
    X,
    O,
    Empty,
    Tie,
}

impl Piece {
    /// Whether this is the mark of X.
    pub open spec fn spec_is_x(&self) -> bool {
        *self is X
    }

    /// Whether this is the mark of O.
    pub open spec fn spec_is_o(&self) -> bool {
        *self is O
    }

    /// Whether this is no mark at all.
    pub open spec fn spec_is_none(&self) -> bool {
        *self is Empty
    }

    /// The characters that stand for the piece: `X`, `O`, nothing for an
    /// empty cell, and `Tie`.
    pub open spec fn name(&self) -> Seq<char> {
        match self {
            Piece::X => seq!['X'],
            Piece::O => seq!['O'],
            Piece::Empty => Seq::empty(),
            Piece::Tie => seq!['T', 'i', 'e'],
        }
    }

    /// Whether this is the mark of X.
    #[verifier::when_used_as_spec(spec_is_x)]
    pub fn is_x(&self) -> (r: bool)
        ensures
            r == self.spec_is_x(),
    {
        if let Piece::X = self {
            true
        } else {
            false
        }
    }

    /// Whether this is the mark of O.
    #[verifier::when_used_as_spec(spec_is_o)]
    pub fn is_o(&self) -> (r: bool)
        ensures
            r == self.spec_is_o(),
    {
        if let Piece::O = self {
            true
        } else {
            false
        }
    }

    /// Whether this is no mark at all.
    #[verifier::when_used_as_spec(spec_is_none)]
    pub fn is_none(&self) -> (r: bool)
        ensures
            r == self.spec_is_none(),
    {
        if let Piece::Empty = self {
            true
        } else {
            false
        }
    }

    /// The text that stands for the piece.
    pub fn val(&self) -> (text: &'static str)
        ensures
            text@ == self.name(),
    {
        proof {
            reveal_strlit("X");
            reveal_strlit("O");
            reveal_strlit("");
            reveal_strlit("Tie");
        }
        if self.is_x() {
            let text = "X";
            assert(text@ == seq!['X']);
            return text;
        }
        if self.is_o() {
            let text = "O";
            assert(text@ == seq!['O']);
            return text;
        }
        if self.is_none() {
            let text = "";
            assert(text@ == Seq::<char>::empty());
            return text;
        }
        let text = "Tie";
        assert(text@ == seq!['T', 'i', 'e']);
        text
    }
}

/// The eight lines of the grid: three rows, three columns, two diagonals.
pub open spec fn lines() -> Seq<(int, int, int)> {
    seq![
        (0, 1, 2),
        (0, 3, 6),
        (0, 4, 8),
        (1, 4, 7),
        (2, 5, 8),
        (2, 4, 6),
        (3, 4, 5),
        (6, 7, 8),
    ]
}

/// How many of the three cells of a line hold `mark`.
pub open spec fn marks_on(cells: Seq<Piece>, line: (int, int, int), mark: Piece) -> int {
    (if cells[line.0] == mark {
        1int
    } else {
        0int
    }) + (if cells[line.1] == mark {
        1int
    } else {
        0int
    }) + (if cells[line.2] == mark {
        1int
    } else {
        0int
    })
}

/// What a number of marks on a line that is still open is worth: 1, 10 and
/// 100 for one, two and three marks.
pub open spec fn weight(marks: int) -> int {
    if marks <= 0 {
        0
    } else if marks == 1 {
        1
    } else if marks == 2 {
        10
    } else {
        100
    }
}

/// The score of one line: positive by the marks of X where O has none on
/// it, negative by the marks of O where X has none, and 0 where both have
/// marks on it or neither has.
pub open spec fn line_score(cells: Seq<Piece>, line: (int, int, int)) -> int {
    let x = marks_on(cells, line, Piece::X);
    let o = marks_on(cells, line, Piece::O);
    if o == 0 {
        weight(x)
    } else if x == 0 {
        -weight(o)
    } else {
        0
    }
}

/// The score of the first `n` lines.
pub open spec fn lines_score(cells: Seq<Piece>, n: nat) -> int
    decreases n,
{
    if n == 0 {
        0
    } else {
        lines_score(cells, (n - 1) as nat) + line_score(cells, lines()[n - 1])
    }
}

/// The empty cells among the first `n`, in ascending order.
pub open spec fn empty_below(cells: Seq<Piece>, n: nat) -> Seq<usize>
    decreases n,
{
    if n == 0 {
        Seq::empty()
    } else if cells[n - 1] is Empty {
        empty_below(cells, (n - 1) as nat).push((n - 1) as usize)
    } else {
        empty_below(cells, (n - 1) as nat)
    }
}

/// The cell that a row letter (`A`, `B`, `C`) and a column number (1, 2, 3)
/// name.
pub open spec fn cell_named(row: Seq<char>, col: int) -> Option<int> {
    if 1 <= col <= 3 {
        if row == seq!['A'] {
            Some(col - 1)
        } else if row == seq!['B'] {
            Some(col + 2)
        } else if row == seq!['C'] {
            Some(col + 5)
        } else {
            None
        }
    } else {
        None
    }
}

/// The mathematical model of a game of tic-tac-toe.
pub struct Grid {
    /// The nine cells in reading order.
    pub cells: Seq<Piece>,
    /// How the game has ended, if it has.
    pub winner: Option<Piece>,
    /// The number of marks set.
    pub moves: nat,
}

impl Grid {
    /// The invariant of a game: nine cells, of which as many are taken as
    /// marks were set.
    pub open spec fn valid(self) -> bool {
        self.cells.len() == 9 && self.moves + empty_below(self.cells, 9).len() == 9
    }

    /// The legal moves: the empty cells in ascending order.
    pub open spec fn legal_moves(self) -> Seq<usize> {
        empty_below(self.cells, 9)
    }

    /// The score of the grid: the sum of the scores of its eight lines.
    pub open spec fn evaluation(self) -> int {
        lines_score(self.cells, 8)
    }

    /// The game after `mark` is set on cell `at`: one mark more, and a tie
    /// recorded once nine are set.
    pub open spec fn marked(self, at: int, mark: Piece) -> Grid {
        Grid {
            cells: self.cells.update(at, mark),
            winner: if self.moves + 1 == 9 {
                Some(Piece::Tie)
            } else {
                self.winner
            },
            moves: self.moves + 1,
        }
    }

    /// Whether `mark` fills one of the eight lines.
    pub open spec fn has_line(self, mark: Piece) -> bool {
        exists|k: int| 0 <= k < 8 && marks_on(self.cells, #[trigger] lines()[k], mark) == 3
    }

    /// The game with `mark` recorded as the winner if it fills a line.
    pub open spec fn judged(self, mark: Piece) -> Grid {
        if self.has_line(mark) {
            Grid { winner: Some(mark), ..self }
        } else {
            self
        }
    }
}

/// The state of a game of tic-tac-toe.
#[derive(Debug, PartialEq, Eq)]
pub struct TicGame {
    /// The nine cells in reading order.
    pub board: [Piece; 9],
    /// How the game has ended, if it has.
    pub winner: Option<Piece>,
    /// The number of marks set.
    pub moves: usize,
}

impl View for TicGame {
    type V = Grid;

    open spec fn view(&self) -> Grid {
        Grid { cells: self.board@, winner: self.winner, moves: self.moves as nat }
    }
}

impl Clone for TicGame {
    /// The copy equals the state it was made from and shares nothing with
    /// it.
    fn clone(&self) -> (copy: Self)
        ensures
            copy == *self,
    {
        TicGame { board: self.board, winner: self.winner, moves: self.moves }
    }
}

/// The three cells of line number `k`.
fn line(k: usize) -> (cells: (usize, usize, usize))
    requires
        k < 8,
    ensures
        (cells.0 as int, cells.1 as int, cells.2 as int) == lines()[k as int],
        cells.0 < 9,
        cells.1 < 9,
        cells.2 < 9,
{
    if k == 0 {
        (0, 1, 2)
    } else if k == 1 {
        (0, 3, 6)
    } else if k == 2 {
        (0, 4, 8)
    } else if k == 3 {
        (1, 4, 7)
    } else if k == 4 {
        (2, 5, 8)
    } else if k == 5 {
        (2, 4, 6)
    } else if k == 6 {
        (3, 4, 5)
    } else {
        (6, 7, 8)
    }
}

impl TicGame {
    /// An empty grid, no mark set and no end recorded.
    pub fn new() -> (game: Self)
        ensures
            game@.cells == Seq::new(9, |i: int| Piece::Empty),
            game@.winner is None,
            game@.moves == 0,
            game@.valid(),
    {
        let game = TicGame {
            board: [
                Piece::Empty,
                Piece::Empty,
                Piece::Empty,
                Piece::Empty,
                Piece::Empty,
                Piece::Empty,
                Piece::Empty,
                Piece::Empty,
                Piece::Empty,
            ],
            winner: None,
            moves: 0,
        };
        assert(empty_below(game@.cells, 9).len() == 9) by {
            reveal_with_fuel(empty_below, 10);
        }
        game
    }

    /// Whether the state satisfies the invariant of a game, which the
    /// functions that play a game ask for. Every state that a game reaches
    /// from its start does; a state whose fields were set by hand may not.
    pub fn is_valid(&self) -> (valid: bool)
        ensures
            valid == self@.valid(),
    {
        let mut empty: usize = 0;
        let mut i: usize = 0;
        while i < 9
            invariant
                i <= 9,
                empty == empty_below(self@.cells, i as nat).len(),
                empty <= i,
            decreases 9 - i,
        {
            if self.board[i].is_none() {
                empty += 1;
            }
            i += 1;
        }
        self.moves <= 9 && self.moves + empty == 9
    }

    /// How many of the cells `a`, `b`, `c` hold `mark`.
    fn count_marks(&self, cells: (usize, usize, usize), mark: Piece) -> (n: usize)
        requires
            cells.0 < 9,
            cells.1 < 9,
            cells.2 < 9,
        ensures
            n == marks_on(self@.cells, (cells.0 as int, cells.1 as int, cells.2 as int), mark),
            n <= 3,
    {
        let mut n: usize = 0;
        if self.board[cells.0] == mark {
            n += 1;
        }
        if self.board[cells.1] == mark {
            n += 1;
        }
        if self.board[cells.2] == mark {
            n += 1;
        }
        n
    }

    /// Whether `row` and `col` name an empty cell, and which: `(true, cell)`
    /// if they do, `(false, 10)` if they name no cell or one that is taken.
    pub fn validmove(&self, row: &str, col: usize) -> (answer: (bool, usize))
        ensures
            answer == match cell_named(row@, col as int) {
                Some(cell) if self@.cells[cell] is Empty => (true, cell as usize),
                _ => (false, 10usize),
            },
    {
        if row.unicode_len() != 1 || col < 1 || col > 3 {
            assert(row@.len() != 1 ==> row@ != seq!['A'] && row@ != seq!['B'] && row@ != seq!['C']);
            return (false, 10);
        }
        let letter = row.get_char(0);
        assert(row@ == seq![letter]);
        let base: usize = if letter == 'A' {
            0
        } else if letter == 'B' {
            3
        } else if letter == 'C' {
            6
        } else {
            assert(seq![letter] != seq!['A'] && seq![letter] != seq!['B'] && seq![letter] != seq![
                'C',
            ]) by {
                assert(seq![letter][0] == letter);
            }
            return (false, 10);
        };
        let num = base + col - 1;
        if self.board[num].is_none() {
            return (true, num);
        }
        (false, 10)
    }

    /// Sets `player` on cell `position`, and records a tie once nine marks
    /// are set.
    pub fn store_move(&mut self, position: usize, player: Piece)
        requires
            position < 9,
            old(self).moves < usize::MAX,
        ensures
            final(self)@ == old(self)@.marked(position as int, player),
    {
        self.board[position] = player;
        self.moves += 1;
        if self.moves == 9 {
            self.winner = Some(Piece::Tie);
        }
    }

    /// Whether `player` fills one of the eight lines.
    pub fn check_win(&self, player: Piece) -> (won: bool)
        ensures
            won == self@.has_line(player),
    {
        let mut k: usize = 0;
        while k < 8
            invariant
                k <= 8,
                forall|j: int| 0 <= j < k ==> marks_on(self@.cells, #[trigger] lines()[j], player) != 3,
            decreases 8 - k,
        {
            let in_row = self.count_marks(line(k), player);
            if in_row == 3 {
                return true;
            }
            k += 1;
        }
        false
    }

    /// The depth to search at a level of difficulty: three plies a level.
    pub fn search_depth(difficulty: usize) -> (depth: usize)
        requires
            3 * difficulty <= usize::MAX,
        ensures
            depth == 3 * difficulty,
    {
        difficulty * 3
    }

    /// One round of play. The player's X is set on the cell that `row` and
    /// `col` name; if that completes a line, X is recorded as the winner.
    /// If not, a search of the given depth chooses a cell for the opponent,
    /// O is set there, and O is recorded as the winner if that completes a
    /// line. Where `row` and `col` name no empty cell, the state is left as
    /// it is. Returns whether the player's mark was set, and the
    /// opponent's cell.
    pub fn round(&mut self, row: &str, col: usize, depth: usize) -> (played: (bool, Option<usize>))
        requires
            old(self)@.valid(),
        ensures
            match cell_named(row@, col as int) {
                Some(cell) if old(self)@.cells[cell] is Empty => {
                    let set = old(self)@.marked(cell, Piece::X);
                    &&& played.0
                    &&& if set.has_line(Piece::X) {
                        played.1 is None && final(self)@ == set.judged(Piece::X)
                    } else {
                        &&& is_choice::<TicGame>(set, depth as nat, true, played.1)
                        &&& final(self)@ == match played.1 {
                            Some(reply) => set.marked(reply as int, Piece::O).judged(Piece::O),
                            None => set,
                        }
                    }
                },
                _ => !played.0 && played.1 is None && final(self)@ == old(self)@,
            },
            final(self)@.valid(),
    {
        let (valid, pos) = self.validmove(row, col);
        if !valid {
            return (false, None);
        }
        proof {
            lemma_empty_below_members(self@.cells, 9, pos);
            lemma_empty_below_marked(self@.cells, 9, pos as int, Piece::X);
        }
        self.store_move(pos, Piece::X);
        if self.check_win(Piece::X) {
            self.winner = Some(Piece::X);
            return (true, None);
        }
        let next_move = minimax_search(&*self, depth, true);
        if let Some(m) = next_move {
            proof {
                lemma_empty_below_members(self@.cells, 9, m);
                lemma_empty_below_marked(self@.cells, 9, m as int, Piece::O);
            }
            self.store_move(m, Piece::O);
            if self.check_win(Piece::O) {
                self.winner = Some(Piece::O);
            }
        }
        (true, next_move)
    }

    /// The lines of text that show the grid: the column numbers, then the
    /// rows `A` to `C`, each cell by its mark and two spaces apart.
    pub fn printboard(&self) -> (text: String)
        ensures
            text@ == grid_text(self@.cells),
    {
        proof {
            reveal_strlit("  1  2  3\n");
            reveal_strlit("A ");
            reveal_strlit("B ");
            reveal_strlit("C ");
            reveal_strlit("  ");
            reveal_strlit("\n");
            assert("  1  2  3\n"@ == seq![' ', ' ', '1', ' ', ' ', '2', ' ', ' ', '3', '\n']);
            assert("A "@ == seq!['A', ' ']);
            assert("B "@ == seq!['B', ' ']);
            assert("C "@ == seq!['C', ' ']);
            assert("  "@ == seq![' ', ' ']);
            assert("\n"@ == seq!['\n']);
        }
        let mut out = String::new();
        out.append("  1  2  3\n");
        out.append("A ");
        out.append(self.board[0].val());
        out.append("  ");
        out.append(self.board[1].val());
        out.append("  ");
        out.append(self.board[2].val());
        out.append("\n");
        assert(out@ == with_grid_row(
            seq![' ', ' ', '1', ' ', ' ', '2', ' ', ' ', '3', '\n'],
            self@.cells,
            0,
        ));
        out.append("B ");
        out.append(self.board[3].val());
        out.append("  ");
        out.append(self.board[4].val());
        out.append("  ");
        out.append(self.board[5].val());
        out.append("\n");
        out.append("C ");
        out.append(self.board[6].val());
        out.append("  ");
        out.append(self.board[7].val());
        out.append("  ");
        out.append(self.board[8].val());
        out.append("\n");
        out
    }
}

/// The letter of row `row` of the grid: `A`, `B`, `C`.
pub open spec fn row_letter(row: int) -> char {
    if row == 0 {
        'A'
    } else if row == 1 {
        'B'
    } else {
        'C'
    }
}

/// `text` followed by the line that shows row `row` of the grid: the row's
/// letter, a space, and the marks of its three cells two spaces apart.
pub open spec fn with_grid_row(text: Seq<char>, cells: Seq<Piece>, row: int) -> Seq<char> {
    text + seq![row_letter(row), ' '] + cells[3 * row].name() + seq![' ', ' '] + cells[3 * row
        + 1].name() + seq![' ', ' '] + cells[3 * row + 2].name() + seq!['\n']
}

/// The grid as text: the column numbers and the three rows.
pub open spec fn grid_text(cells: Seq<Piece>) -> Seq<char> {
    with_grid_row(
        with_grid_row(
            with_grid_row(seq![' ', ' ', '1', ' ', ' ', '2', ' ', ' ', '3', '\n'], cells, 0),
            cells,
            1,
        ),
        cells,
        2,
    )
}

impl HeuristicGameTree for TicGame {
    type Move = usize;

    open spec fn valid(v: Grid) -> bool {
        v.valid()
    }

    open spec fn legal_moves(v: Grid) -> Seq<usize> {
        v.legal_moves()
    }

    open spec fn evaluation(v: Grid) -> int {
        v.evaluation()
    }

    open spec fn accepts(v: Grid, m: usize) -> bool {
        m < 9 && v.moves < usize::MAX
    }

    open spec fn successor(v: Grid, m: usize, is_opponent: bool) -> Grid {
        v.marked(
            m as int,
            if is_opponent {
                Piece::O
            } else {
                Piece::X
            },
        )
    }

    open spec fn opponent_to_move(v: Grid) -> bool {
        v.moves % 2 == 1
    }

    proof fn lemma_legal_move(v: Grid, m: usize, is_opponent: bool) {
        lemma_empty_below_members(v.cells, 9, m);
        let mark = if is_opponent {
            Piece::O
        } else {
            Piece::X
        };
        lemma_empty_below_marked(v.cells, 9, m as int, mark);
    }

    proof fn lemma_evaluation_bounds(v: Grid) {
        lemma_lines_score_bounded(v.cells, 8);
    }

    proof fn lemma_clone(state: &Self, copy: &Self) {
    }

    /// The empty cells in ascending order.
    fn possible_moves(&self) -> (moves: Vec<usize>) {
        let mut list: Vec<usize> = Vec::new();
        let mut i: usize = 0;
        while i < 9
            invariant
                i <= 9,
                list@ == empty_below(self@.cells, i as nat),
            decreases 9 - i,
        {
            if self.board[i].is_none() {
                list.push(i);
            }
            i += 1;
        }
        list
    }

    /// The sum of the scores of the eight lines.
    fn heuristic(&self) -> (h: isize) {
        let mut h: isize = 0;
        let mut k: usize = 0;
        while k < 8
            invariant
                k <= 8,
                h == lines_score(self@.cells, k as nat),
                -100 * k <= h <= 100 * k,
            decreases 8 - k,
        {
            let cells = line(k);
            let x = self.count_marks(cells, Piece::X);
            let o = self.count_marks(cells, Piece::O);
            if o == 0 {
                h += mark_weight(x);
            } else if x == 0 {
                h -= mark_weight(o);
            }
            k += 1;
        }
        h
    }

    /// Sets the mark of the opponent, O, if `is_opponent` is set, and the
    /// mark of X if not, and says whether the opponent moves next, which
    /// is after an odd number of marks.
    fn execute_move(&mut self, m: &usize, is_opponent: bool) -> (opponent_next: bool) {
        self.store_move(
            *m,
            if is_opponent {
                Piece::O
            } else {
                Piece::X
            },
        );
        self.moves % 2 == 1
    }
}

/// What a number of marks on an open line is worth.
fn mark_weight(marks: usize) -> (w: isize)
    requires
        marks <= 3,
    ensures
        w == weight(marks as int),
        0 <= w <= 100,
{
    if marks == 0 {
        0
    } else if marks == 1 {
        1
    } else if marks == 2 {
        10
    } else {
        100
    }
}

/// The cells listed as empty are cells of the grid.
pub proof fn lemma_empty_below_members(cells: Seq<Piece>, n: nat, m: usize)
    requires
        n <= 9,
    ensures
        empty_below(cells, n).contains(m) <==> m < n && cells[m as int] is Empty,
    decreases n,
{
    if n > 0 {
        lemma_empty_below_members(cells, (n - 1) as nat, m);
        let before = empty_below(cells, (n - 1) as nat);
        if cells[n - 1] is Empty {
            let all = before.push((n - 1) as usize);
            assert(all[before.len() as int] == (n - 1) as usize);
            if before.contains(m) {
                let i = choose|i: int| 0 <= i < before.len() && before[i] == m;
                assert(all[i] == m);
            }
            if all.contains(m) {
                let i = choose|i: int| 0 <= i < all.len() && all[i] == m;
                if i < before.len() {
                    assert(before[i] == m);
                }
            }
        }
    }
}

/// Setting a mark on an empty cell leaves one empty cell fewer; on the
/// cells before it nothing changes.
pub proof fn lemma_empty_below_marked(cells: Seq<Piece>, n: nat, at: int, mark: Piece)
    requires
        n <= cells.len(),
        0 <= at < cells.len(),
        cells[at] is Empty,
        mark !is Empty,
    ensures
        empty_below(cells.update(at, mark), n).len() == empty_below(cells, n).len() - if at < n {
            1int
        } else {
            0int
        },
    decreases n,
{
    if n > 0 {
        lemma_empty_below_marked(cells, (n - 1) as nat, at, mark);
    }
}

/// The cells with the marks of X and O exchanged.
pub open spec fn exchanged(cells: Seq<Piece>) -> Seq<Piece> {
    Seq::new(
        cells.len(),
        |i: int|
            match cells[i] {
                Piece::X => Piece::O,
                Piece::O => Piece::X,
                other => other,
            },
    )
}

/// The score of the first `n` lines is negated by exchanging the marks.
pub proof fn lemma_lines_score_exchanged(cells: Seq<Piece>, n: nat)
    requires
        cells.len() == 9,
        n <= 8,
    ensures
        lines_score(exchanged(cells), n) == -lines_score(cells, n),
    decreases n,
{
    if n > 0 {
        lemma_lines_score_exchanged(cells, (n - 1) as nat);
        let line = lines()[n - 1];
        assert(marks_on(exchanged(cells), line, Piece::X) == marks_on(cells, line, Piece::O));
        assert(marks_on(exchanged(cells), line, Piece::O) == marks_on(cells, line, Piece::X));
    }
}

/// The evaluation is symmetric: with the marks exchanged a grid is worth
/// the opposite.
pub proof fn lemma_evaluation_exchanged(grid: Grid)
    requires
        grid.cells.len() == 9,
    ensures
        (Grid { cells: exchanged(grid.cells), ..grid }).evaluation() == -grid.evaluation(),
{
    lemma_lines_score_exchanged(grid.cells, 8);
}

/// The score of `n` lines lies within 100 a line.
pub proof fn lemma_lines_score_bounded(cells: Seq<Piece>, n: nat)
    ensures
        -100 * n <= lines_score(cells, n) <= 100 * n,
    decreases n,
{
    if n > 0 {
        lemma_lines_score_bounded(cells, (n - 1) as nat);
    }
}

} // verus!
