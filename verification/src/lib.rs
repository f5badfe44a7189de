//! Core of a bitboard chess engine: board representation with redundant
//! mailbox, incremental Zobrist hashing, compact move encoding, make/undo
//! move application, and precomputed leaper and magic-bitboard attack tables.
pub mod action;
pub mod actions;
pub mod bit_operations;
pub mod board;
pub mod laws;
pub mod move_generation;
pub mod pieces;
pub mod zobrist;
