//! LoopMaster: the verified core of an audio router.
//!
//! The crate holds the routing model, the block mixer, the stream protocols and
//! the decisions of the engine, the web console and the device layer. Samples are
//! carried as IEEE-754 bit patterns or as a caller-chosen type; arithmetic on
//! them is handed in by the caller.

pub mod arithmetic;
pub mod decibels;
pub mod diagnostics;
pub mod editor;
pub mod faults;
pub mod fifo;
pub mod mixer;
pub mod network;
pub mod paths;
pub mod resampler;
pub mod routing;
pub mod runtime;
pub mod service;
pub mod snapshot;
pub mod text;
pub mod text_map;
pub mod tone;
pub mod vban;
pub mod web;
pub mod window;
pub mod windows;
