//! The body of a load-models envelope.

use vstd::prelude::*;

verus! {

/// The command to load models.
#[derive(Debug)]
pub struct LoadModels {
    pub model: Vec<RequestModelConfig>,
}

/// One model to load: its name, the device wished for and the sample budget.
#[derive(Debug)]
pub struct RequestModelConfig {
    pub model_name: String,
    pub device: usize,
    pub max_sample_len: usize,
}

} // verus!
