//! Run core of a code-edit agent: an append-only event log, a response parser that
//! recovers edit proposals, a server-sent-event decoder with retry rules, and the
//! settings invariants that guard the paths the agent may touch.
pub mod text;
pub mod error;
pub mod settings;
pub mod action;
pub mod run_id;
pub mod parser;
pub mod event;
pub mod event_log;
pub mod client;
pub mod streaming;
pub mod prompt;
pub mod adapter;
pub mod cli;
