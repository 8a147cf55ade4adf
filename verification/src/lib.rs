//! An in-memory key-value store spoken to over a line-oriented text protocol:
//! the frame parser, the filter engine, the store and the command dispatcher.
//!
//! Every function is stated over a mathematical model of its data (sequences
//! of characters, maps from keys to entries) and proved against it. What
//! `serde_json`, `percent_encoding` and the standard library compute is
//! taken on trust, one small function per call; those functions are marked
//! `external_body` and say in their comments what they claim.

#![allow(unused_imports)]

pub mod decimal;
pub mod frame;
pub mod handler;
pub mod json;
pub mod metrics;
pub mod parser;
pub mod search_parser;
pub mod store;
pub mod text;
pub mod types;
