//! Small utilities shared by the models and the repository.

pub mod decimal;
pub mod helpers;
pub mod text;
