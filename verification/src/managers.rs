//! The supervisor of a connection and the workers of its models.

pub mod errors;
pub mod manager;
pub mod model_manager;
pub mod protocol_manager;
