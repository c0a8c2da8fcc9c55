//! Measurement and orchestration core of a load generator for streaming
//! LLM inference endpoints.
//!
//! - `events`: the normalized stream event taxonomy and the mapping of each
//!   wire protocol onto it.
//! - `sse`: server-sent-event framing and the messages endpoint URL.
//! - `profile`: the per-request automaton, token counts and derived metrics.
//! - `pump`: admission decisions of the bounded concurrent request pump.
//! - `stats`, `summary`: per-metric statistics and the run summary.
//! - `prompt`, `sonnet`, `tokens`: prompt synthesis from a tokenized corpus.
//! - `config`, `naming`: the validated configuration and artifact names.

pub mod config;
pub mod events;
pub mod naming;
pub mod profile;
pub mod prompt;
pub mod pump;
pub mod sonnet;
pub mod sse;
pub mod stats;
pub mod summary;
pub mod text;
pub mod tokens;
