//! Build-progress tracking and statistics engine for a container-build CLI.
//!
//! The heart of the crate is the [`stats`] module: an aggregator that consumes
//! a stream of heterogeneous build events (step lifecycle updates, log lines,
//! blob downloads, raw output) and maintains deduplicated per-step records and
//! aggregate counters. Around it sit a progress presenter ([`progress`]), a
//! diagnostic reporter for failed builds ([`report`]) and a final summary
//! formatter ([`summary`]). The [`model`] module states and proves the laws
//! the aggregator obeys.

pub mod api;
pub mod commands;
pub mod config;
pub mod events;
pub mod model;
pub mod numfmt;
pub mod parse;
pub mod progress;
pub mod report;
pub mod stats;
pub mod summary;
pub mod tables;
pub mod text;
