//! Concurrent HTTP range download engine: chunk planning, dispatch, resume
//! judgement, progress tracking and the small text protocols around them.

pub mod cli;
pub mod config;
pub mod daemon;
pub mod engine;
pub mod flag_config;
pub mod history;
pub mod manifests;
pub mod native_messaging;
pub mod paths;
pub mod registry;
pub mod rpc;
pub mod text;
