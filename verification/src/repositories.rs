//! Repositories: the operations on stored entities.

pub mod customer_codec;
pub mod customer_laws;
pub mod customer_repository;
