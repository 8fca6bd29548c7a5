//! Bodies that the node sends.

pub mod authentication;
pub mod response_load_model;
pub mod response_prompt;
pub mod response_prompt_token;
