//! Helpers for exchanging messages with a plugin.

pub mod utils;
