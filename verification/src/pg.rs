//! How a transaction is carried out in the database.
pub mod error;
pub mod fake;
pub mod laws;
pub mod watcher;
pub mod xact_controller;

pub use xact_controller::{LocalXactController, SurrogateXactController};
