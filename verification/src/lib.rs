//! Stacked commits on one branch: the data model, the rules and the decisions
//! behind an interactive front end that lists, reorders, squashes, rebases and
//! publishes them.
//!
//! The library runs no command and opens no file. It builds the command lines,
//! reads their output, and decides what happens next.
use vstd::prelude::*;

pub mod config;
pub mod forge;
pub mod git;
pub mod history;
pub mod laws;
pub mod stack;
pub mod strmap;
pub mod text;
pub mod tui;

verus! {

} // verus!
