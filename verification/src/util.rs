//! What the command line needs besides the engine.
pub mod config;
