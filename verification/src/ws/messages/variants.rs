//! The bodies of the envelopes.

pub mod bidirectional;
pub mod incomming;
pub mod outgoing;
