//! The body of an error envelope.

use vstd::prelude::*;

verus! {

/// An error: its code and what went wrong.
#[derive(Debug)]
pub struct ErrorMessage {
    pub code: u32,
    pub message: String,
}

} // verus!
