//! The record kinds, the store built from them, and the tokens that name
//! single records.

pub mod database;
pub mod graphql;
pub mod index;
pub mod integrity;
pub mod models;
pub mod tables;
pub mod types;
pub mod validate;
