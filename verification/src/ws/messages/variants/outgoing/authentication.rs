//! The body of an authentication envelope.

use vstd::prelude::*;

verus! {

/// What a node says of itself to authenticate.
#[derive(Debug)]
pub struct Authentication {
    pub token: String,
    pub hardware: Vec<GPU>,
}

/// One GPU of the node.
#[derive(Debug)]
pub struct GPU {
    pub gpu_model: String,
    pub gpu_vram: u32,
    pub driver: String,
    pub cuda: String,
}

} // verus!
