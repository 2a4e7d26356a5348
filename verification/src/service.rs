//! What the application offers to its windows and to the network.

pub mod config;
pub mod device;
pub mod engine;
pub mod error;
pub mod laws;
pub mod state;
