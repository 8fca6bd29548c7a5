//! The body of a success envelope.

use vstd::prelude::*;

verus! {

/// A success: its code and a note.
#[derive(Debug)]
pub struct SuccessMessage {
    pub code: u32,
    pub message: String,
}

} // verus!
