//! A text-driven interactive-fiction engine: a validated graph of scenes,
//! each offering labeled options that move the player to other scenes, and
//! the state machine that walks the graph in response to parsed commands,
//! resolving item grants and turn-based combat along the way.

pub mod actions;
pub mod engine;
pub mod entities;
pub mod parser;
pub mod scenario;
pub mod text;
