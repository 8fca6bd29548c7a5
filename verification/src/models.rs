//! The backend's model catalog and the poll target derived from it.

pub mod poller;
pub mod tags;
