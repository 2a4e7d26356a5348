//! Device audio: endpoints, their formats, and the decisions that opening, writing and
//! reading a stream ask for.

pub mod backend;
pub mod conversion;
pub mod endpoint;
pub mod laws;
pub mod listing;
pub mod open;
pub mod process;
pub mod stream;
