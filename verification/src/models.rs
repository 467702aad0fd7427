//! Entity models: the customer, its list projection, the externally sourced
//! profile, and the field rules all of them are validated against.

pub mod customer_model;
pub mod github_model;
pub mod validation;
