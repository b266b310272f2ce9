//! The move-generation and pawn-structure core of a chess engine, on a
//! bitboard representation: selector-driven production of pseudo-legal and
//! legal move lists, and a memoized pawn-structure and king-safety
//! evaluation, each verified against a mathematical model of the board.

pub mod bitboard;
pub mod bits;
pub mod movegen;
pub mod pawns;
pub mod position;
pub mod score;
pub mod types;
