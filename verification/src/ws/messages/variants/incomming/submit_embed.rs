//! The body of a submit-embed envelope.

use vstd::prelude::*;

verus! {

/// A text to embed with a model.
#[derive(Debug)]
pub struct SubmitEmbed {
    pub model: String,
    pub polling: String,
    pub data: String,
}

} // verus!
