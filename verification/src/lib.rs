//! A progressive path-tracing render engine: scene description and parsing,
//! termination policies for the sampling loop, and the arithmetic that
//! resolves an accumulation buffer into a displayable image.
//!
//! The GPU dispatch itself, file handling and the command line are left to a
//! thin unverified shell around this library.

pub mod gpu;
pub mod json;
pub mod overlay;
pub mod policy;
pub mod report;
pub mod scene;
pub mod textutil;
