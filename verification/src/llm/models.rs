//! The models that a node can load.

pub mod llama3_8b;
pub mod model_core;
