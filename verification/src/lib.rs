//! Matchmaking registry for a scripted-combat game.
//!
//! Clients submit a script (a "fighter"), receive an identifier for it, and ask
//! for a battle, which pits their fighter against a random sample of the other
//! registered fighters.
//!
//! - [`state`] holds the registry, its calls and the sampling.
//! - [`history`] states what holds of the registry after any sequence of calls.
//! - [`serve`] decides, for a request, which route it takes and which call on
//!   the registry answers it.

pub mod history;
pub mod serve;
pub mod state;
