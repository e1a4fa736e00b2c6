//! Helpers for the panel that lists the moves played so far.

pub mod utils;
