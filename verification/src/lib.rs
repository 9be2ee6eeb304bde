//! A bitboard chess move generator with a perft node counter.
//!
//! A position is held as twelve 64-bit piece masks plus aggregate masks and
//! metadata ([`Board`]). Moves are tagged values ([`Move`]); the generator
//! ([`MoveService`]) enumerates pseudo-legal moves for a side, and
//! [`Board::make_move`] applies a move and rejects it when it would leave the
//! mover's king attacked. The perft driver counts leaf positions to a bounded
//! depth.

pub mod bits;
pub mod board;
pub mod engine;
pub mod fen;
pub mod laws;
pub mod move_service;
pub mod moves;
pub mod perft;
pub mod piece_move;
pub mod pieces;

pub use crate::board::Board;
pub use crate::pieces::Piece;
pub use crate::moves::Move;
pub use crate::move_service::MoveService;
pub use crate::fen::ParseError;
pub use crate::engine::Perft;
