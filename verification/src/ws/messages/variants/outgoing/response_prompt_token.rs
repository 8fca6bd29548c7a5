//! The body of a response-prompt-token envelope.

use vstd::prelude::*;

verus! {

/// One streamed fragment of the answer to a prompt.
#[derive(Debug)]
pub struct ResponsePromptToken {
    pub model: String,
    pub token: String,
}

} // verus!
