//! The store as the repository sees it: attribute values, records, requests
//! and a table that answers them.

pub mod association;
pub mod attribute;
pub mod request;
pub mod table;
