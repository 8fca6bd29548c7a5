//! Language models: their configuration, their prompt templates and the
//! decisions of sequence generation.

pub mod models;
pub mod traits;
