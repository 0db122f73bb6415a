//! A maintenance-check orchestrator: a fixed set of diagnostic probes is
//! checked concurrently by the host, their findings are collected in
//! completion order, and fixes are applied one at a time after interactive
//! confirmation. This crate holds the verified core: the text processing
//! that turns raw probe data into reports, and the state machine that
//! decides, for every collected result, whether and when a fix may run.
//! All I/O (process spawning, file reading, the terminal) stays outside.

pub mod config;
pub mod engine;
pub mod output;
pub mod probes;
pub mod text;
