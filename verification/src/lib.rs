//! Streaming chat orchestration with interleaved tool calling.
//!
//! The library is built around a protocol state machine that drives one chat
//! turn against a token-streaming inference backend: it accumulates text,
//! extracts emergent tool-call markup from the partial transcript, deduplicates
//! and dispatches tool invocations, supports cooperative mid-stream
//! cancellation through a registry of live streams, and decides whether a
//! follow-up interpretive turn is required.

pub mod chunk;
pub mod constants;
pub mod dispatch;
pub mod driver;
pub mod json;
pub mod laws;
pub mod logs;
pub mod markup;
pub mod modelcat;
pub mod models;
pub mod paths;
pub mod prepare;
pub mod registry;
pub mod skills;
pub mod text;
pub mod titles;
pub mod toolcfg;
pub mod types;

