//! Other machines in the network.

pub mod addresses;
pub mod identity;
pub mod laws;
pub mod nodes;
