//! Live-stream room watcher and HLS segment recorder: the decision logic,
//! parsers and state machines, with their contracts.

pub mod cli;
pub mod client;
pub mod config;
pub mod error;
pub mod text;
pub mod segment;
pub mod stats;
pub mod validation;
pub mod monitor;
pub mod paths;
pub mod discovery;
pub mod escape;
pub mod recorder;
