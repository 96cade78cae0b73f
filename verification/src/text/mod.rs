//! Text handling: character classes, trimming, splitting, searching and number rendering.
//!
//! Every function works on the characters of a string: its contract speaks of `s@`, the sequence
//! of characters that the string holds.

pub mod chars;
pub mod laws;
pub mod numbers;
pub mod order;
pub mod split;
pub mod strings;
