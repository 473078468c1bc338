//! What the operations promise, said of their inputs, commands and results alone.
pub mod addresses;
pub mod bases;
pub mod command;
pub mod keys;
pub mod listing;
pub mod publishing;
pub mod pulling;
pub mod reading;
pub mod revisions;
pub mod rewriting;
pub mod settings;
pub mod showing;
pub mod squashing;
pub mod stacking;
pub mod submitting;
pub mod syncing;
pub mod trailers;
