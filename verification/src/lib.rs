//! Core logic of a terminal pet crab that lives on git commits, and of its
//! minigames.
pub mod mood;
pub mod rng;
pub mod clock;
pub mod controls;
pub mod crab;
pub mod environment;
pub mod git;
pub mod messages;
pub mod games;
pub mod state;
pub mod scores;
pub mod text;
