//! The body of a response-load-model envelope.

use crate::llm::models::model_core::config::ModelConfigPublic;
use vstd::prelude::*;

verus! {

/// The acknowledgment of a loaded model: the identifier of its worker and
/// its public configuration.
#[derive(Debug)]
pub struct ResponseLoadModel {
    pub handler_id: String,
    pub config: ModelConfigPublic,
}

} // verus!
