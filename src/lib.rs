//! Replicates a falling-block puzzle game's piece randomizer and keeps a
//! rollback-capable history of observed game states.

pub mod piece_gen;
pub mod state;
pub mod game_state;
pub mod sync_ppt;
