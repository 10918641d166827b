//! A rules-legality validator for a trading-card game.
//!
//! Given a snapshot of board state and at most one pending player action, the
//! library determines whether the action is legal and surfaces any automatic
//! state-based corrections the board currently requires (the "legend rule").
//! It also commits a validated action by mutating the snapshot.
//!
//! The crate is organised leaves first: `models` is the closed vocabulary of
//! the game (colors, card types, phases, the mana pool, permanents, the board
//! snapshot), `text` builds the human-readable ruling messages, `mana` is the
//! cost ledger (cost parsing and payment simulation), and `rules` is the judge
//! that assesses legality and applies actions. `laws` states and proves the
//! board-wide properties the judge guarantees.

pub mod laws;
pub mod mana;
pub mod models;
pub mod rules;
pub mod text;
