//! Repository layer for customer records kept in a key-value table store.
//!
//! The crate holds the entity models, their wire encoding as store attributes,
//! the requests each repository operation issues, and an in-memory table that
//! honours the store's conditional-write contract. Every operation is stated
//! over mathematical views of the models and of the table.

pub mod common;
pub mod models;
pub mod repositories;
pub mod store;
