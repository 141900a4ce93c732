//! An ultimate tic-tac-toe engine: a 3x3 grid of 3x3 sub-boards with the
//! forced-next-board rule, reversible move application, a table-driven
//! positional evaluator, and a fixed-depth minimax search with
//! alpha-beta pruning.

pub mod agent;
pub mod enums;
pub mod large_board;
pub mod min_max;
pub mod score;
pub mod sub_board;
pub mod types;

pub use agent::Agent;
pub use enums::{BoardState, PlayerState};
pub use min_max::MinMax;
pub use score::ScoreTables;
pub use large_board::LargeBoard;
pub use sub_board::SubBoard;
pub use types::{Coord, Move};
