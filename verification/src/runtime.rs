//! The audio engine: capture, mixing and rendering, and what keeps them going.

pub mod capture;
pub mod config;
pub mod engine;
pub mod laws;
pub mod mixing;
pub mod rendering;
pub mod status;
pub mod supervisor;
