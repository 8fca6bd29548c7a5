//! The body of a submit-prompt envelope.

use vstd::prelude::*;

verus! {

/// A prompt for a model.
#[derive(Debug)]
pub struct SubmitPrompt {
    pub stream: bool,
    pub model_id: String,
    pub system_mesage: String,
    pub mode: String,
    pub history: Vec<String>,
    pub prompt: String,
}

} // verus!
