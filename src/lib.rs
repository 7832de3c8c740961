//! The state-transition core of a staked two-player game of noughts and
//! crosses kept on a replicated ledger: player, challenge and game records,
//! address authorization, move validation and win detection, and the escrow
//! and settlement of stakes.

use vstd::prelude::*;

pub mod board;
pub mod challenge_data;
pub mod error;
pub mod game_data;
pub mod instruction;
pub mod player_data;
pub mod processor;
pub mod utils;

verus! {

} // verus!
