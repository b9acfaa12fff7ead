//! Conway's Game of Life on a fixed-size rectangular grid with toroidal
//! (wrap-around) edges.
//!
//! A [`Board`] owns a dense row-major grid of cell states. It is built either
//! all-dead or randomly, advanced one generation at a time by
//! [`Board::next_board_state`], compared cell-by-cell by
//! [`Board::compare_boards`], and rendered to a bordered byte grid by
//! [`Board::render`]. Every generation step is proved to follow the standard
//! Life rule with Euclidean-modulo edge wrap.

pub mod board;
pub mod laws;

pub use board::Board;
pub use board::State;
