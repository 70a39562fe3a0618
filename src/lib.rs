//! Text-expansion engine: keystroke buffering, idle-based trigger matching,
//! and the step sequence that swaps a typed trigger for its snippet.

pub mod behaviour;
mod clock;
pub mod executor;
pub mod handler;
pub mod keys;
pub mod matcher;
pub mod settings;
pub mod snippet;
pub mod store;
pub mod text;
pub mod typing;
