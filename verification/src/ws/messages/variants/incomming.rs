//! Bodies that the hub sends.

pub mod load_models;
pub mod submit_embed;
pub mod submit_prompt;
