//! A verified generator of deployment artifacts for a multi-service GPU
//! inference stack. One declarative config document is resolved, validated
//! and rendered into five files: a JSON routing table, a metrics-scrape
//! config, an environment file, a launch script and an orchestration
//! manifest.

pub mod config;
pub mod errors;
pub mod json;
pub mod pipeline;
pub mod quote;
pub mod render;
pub mod resolve;
pub mod text;
