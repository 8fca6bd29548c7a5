//! What all models share.

pub mod config;
