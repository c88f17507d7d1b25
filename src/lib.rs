//! A rule-modifier engine for variant chess.
//!
//! The library sits beside an ordinary legal-move chess engine. It decides how
//! player-owned modifiers (Atomic, Sniper, CrazyHouse, Extinction,
//! King-of-the-Hill, Triple-Check) change a proposed move, keeps the captured
//! piles and check counters, generates reward modifiers from dice, and drives
//! the round lifecycle of a match.

pub mod piece;
pub mod board;
pub mod modifier;
pub mod generator;
pub mod game;
pub mod blast;
pub mod resolver;
pub mod laws;

pub use piece::{Color, PieceKind, Piece, Position};
pub use board::{Board, int_to_pos_tuple};
pub use modifier::{Modifier, ModifierSet};
pub use generator::{generate, draw_candidates, DiceStream};
pub use game::{Match, MatchState, CHECKS_TO_WIN, REWARD_ROLLS};
pub use resolver::MoveOutcome;
