//! What the operations of the library are for.
//!
//! Each law speaks of every call of an operation: of its arguments, of what it gives, and of what
//! is held before and after it.
pub mod answers;
pub mod counting;
pub mod database;
pub mod decoding;
pub mod manager;
pub mod names;
pub mod outcome;
pub mod service;
pub mod steps;
pub mod transactions;
pub mod views;
pub mod votes;
