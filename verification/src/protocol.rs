//! The connection to the hub, the relay to the local backend and the
//! lifecycle of the backend container.

pub mod chunked;
pub mod connection;
pub mod docker;
pub mod network_util;
pub mod os_util;
pub mod state;
