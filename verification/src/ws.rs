//! The structured protocol spoken with the hub.

pub mod client;
pub mod messages;
