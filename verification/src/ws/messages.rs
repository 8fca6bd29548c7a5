//! The envelopes of the structured protocol.

pub mod message;
pub mod message_type;
pub mod variants;
