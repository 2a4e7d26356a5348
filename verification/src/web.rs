//! The console that other devices open in a browser.

pub mod auth;
pub mod certificates;
pub mod control;
pub mod laws;
pub mod monitor;
pub mod negotiation;
pub mod projection;
pub mod server;
pub mod serving;
pub mod tls;
