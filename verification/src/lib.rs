//! An integrity-checked, indexed, immutable store of speedrunning records
//! (games, users, runs, categories and levels), and the pruning loop that
//! drives a raw, partially inconsistent dataset to one the store accepts.

pub mod data;
pub mod mirror;
pub mod precedence;
pub mod reconcile;
pub mod utils;
