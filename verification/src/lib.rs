//! Building blocks of a sequential write/read throughput benchmark for
//! removable storage.
//!
//! The library decides and computes; it touches no file, clock or terminal.
//! A driver performs the actions that [`meter::Meter`] asks for and shows the
//! text that [`report`] renders.

pub mod channel;
pub mod config;
pub mod device;
pub mod meter;
pub mod path;
pub mod payload;
pub mod prompt;
pub mod report;
pub mod size;
pub mod text;
