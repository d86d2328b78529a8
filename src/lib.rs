//! Per-file archiving pipeline: compression, encryption and signing layers
//! composed in a fixed order, the filename-suffix codec that records which
//! algorithms were applied, and the planning of directory-wide jobs.

pub mod algorithms;
pub mod ciphers;
pub mod codecs;
pub mod error;
pub mod extension;
pub mod orchestrator;
pub mod pipeline;

