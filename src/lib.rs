//! A per-side piece ledger for a chess engine: seven bit-boards (one aggregate
//! occupancy board and one board per piece type) that are kept in agreement
//! while the side's own moves and the opponent's captures are recorded.
pub mod bitboard;
pub mod laws;
pub mod ledger;
pub mod piece;
pub mod player;

pub use bitboard::{Bitboard, BOARD_SIZE, NUM_SQUARES};
pub use ledger::{LedgerView, PlayerColor};
pub use piece::{BitboardError, PieceError, PieceType};
pub use player::Player;
