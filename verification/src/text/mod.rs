//! Text as sequences of characters: what the operations on text mean, and
//! executable functions that compute them.
pub mod ansi;
pub mod args;
pub mod bytes;
pub mod chars;
pub mod lines;
pub mod number;
pub mod order;
pub mod pieces;
pub mod search;
pub mod views;
