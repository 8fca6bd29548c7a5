//! Worker-node agent of a distributed inference fleet: the wire codec, the
//! session and supervisor state machines, the backend lifecycle decisions and
//! the relay framing, each with a machine-checked contract.

pub mod config;
pub mod frame;
pub mod llm;
pub mod managers;
pub mod messages;
pub mod models;
pub mod protocol;
pub mod text;
pub mod ws;
