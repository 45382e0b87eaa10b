//! Verified core of a multisampling pipeline for hardware synthesizers.
//!
//! Audio samples are carried as IEEE-754 single-precision words (`u32`), so
//! that every decision taken on them is stated over integers.

pub mod audio;
pub mod capture;
pub mod config;
pub mod detection;
pub mod device;
pub mod error;
pub mod export;
pub mod ieee;
pub mod instrument;
pub mod loop_detection;
pub mod midi;
pub mod notes;
pub mod plan;
pub mod sampler;
pub mod session;
pub mod text;
pub mod wav;
