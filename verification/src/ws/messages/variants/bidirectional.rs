//! Bodies sent in both directions.

pub mod error;
pub mod success;
