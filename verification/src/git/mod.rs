//! Git: the commands that are run and what is made of their answers.
pub mod branch;
pub mod call;
pub mod log;
pub mod ops;
