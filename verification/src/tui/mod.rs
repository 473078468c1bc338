//! The interactive front end: its state, its keys, and what it shows.
pub mod app;
pub mod input;
pub mod run;
pub mod term;
pub mod span;
pub mod ui;
pub mod task;
