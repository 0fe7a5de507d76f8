//! The configuration: its shape, its rules, and how it is taken in.

pub mod load;
pub mod reload;
pub mod schema;
pub mod validate;
