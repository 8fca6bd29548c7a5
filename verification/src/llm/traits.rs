//! What a model can do.

pub mod inferance;
pub mod model;
pub mod template;
pub mod tokenize;
