//! Verified core of a poem-generation pipeline.
//!
//! The library covers the logic of the pipeline: catalog of poem styles and
//! seed prompts, per-call generation settings, aggregation of streamed
//! completion fragments, the sequential prompt chain, and the formatting,
//! sanitization and parsing of the persisted artifact. Network and file I/O
//! live outside the library and hand it plain values.

pub mod aggregate;
pub mod artifact;
pub mod catalog;
pub mod chain;
pub mod images;
pub mod settings;
pub mod strutil;
