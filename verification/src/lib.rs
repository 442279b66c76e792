//! A terminal word-guessing game library: a hidden five-letter word is scored
//! against player guesses with a two-pass multiset algorithm that handles
//! repeated letters, while a per-letter best-state map accumulates hints
//! across guesses and a session tracks attempts until a win or a loss.

pub mod counters;
pub mod dictionary;
pub mod laws;
pub mod letters;
pub mod scoring;
pub mod session;
pub mod state_map;
