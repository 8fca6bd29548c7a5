//! The frames of the relay protocol.

pub mod headers;
pub mod proxy_message;
pub mod proxy_request;
pub mod render;
