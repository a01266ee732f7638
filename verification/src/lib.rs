//! A verified Wordle-solving library.
//!
//! The library parses a frequency-ranked word list, computes per-letter
//! feedback (green/yellow/black) for a guess against a target word, and
//! narrows a candidate list to the words consistent with the feedback seen
//! so far. The solver and interactive game loops are modelled as a small
//! state machine over a turn counter and the current candidate list.

pub mod feedback;
pub mod game;
pub mod loader;
pub mod narrow;
