//! Turn-based board games played against a depth-limited game-tree search.
//!
//! [`minimax`] is a search engine that works on any state implementing
//! [`HeuristicGameTree`]. Two games implement it.
//!
//! [`checkers`] is a rule engine for American checkers on the 32 dark
//! squares of an 8×8 board. Its rules are stated over the mathematical model
//! in [`position`], which rests on the board geometry of [`geometry`].
//! [`rules`] proves what holds of them, [`symmetry`] that they favour no
//! side, and [`notation`] prints boards and reads squares.
//!
//! [`tictactoe`] is the game on the 3×3 grid.

pub mod geometry;
pub mod position;
pub mod checkers;
pub mod minimax;
pub mod rules;
pub mod symmetry;
pub mod notation;
pub mod tictactoe;

pub use minimax::HeuristicGameTree;
