//! A verified chess position core with a search-pool coordination
//! model.
//!
//! The centre is [`board::Board`]: a bitboard position with a
//! reference-counted chain of per-ply state records, move application
//! and retraction, an incrementally maintained Zobrist hash, check and
//! pin caches, legal move generation, and Forsyth-Edwards notation in
//! both directions.  A single invariant (`Board::wf`) ties the masks,
//! the square table and the record chain together; every operation is
//! proved to keep it, and the laws in [`laws`] state the headline
//! properties on their own.
//!
//! [`pool`] holds the search pool's start/stop/teardown protocol as a
//! state machine over plain values; the thread shell around it lives
//! outside the verified core.

pub mod bits;
pub mod types;
pub mod moves;
pub mod geometry;
pub mod zobrist;
pub mod castling;
pub mod locations;
pub mod rules;
pub mod state;
pub mod squares;
pub mod board;
pub mod apply;
pub mod queries;
pub mod movegen;
pub mod fen;
pub mod laws;
pub mod pool;
pub mod magic;
pub mod prng;

pub use prng::PRNG;
