//! The network coordinator.
pub mod coordinator;
pub mod model;
pub mod session;
