//! Core of a small desktop mind-map assistant: a persisted registry of
//! AI-provider configurations with its invariants, a provider-shaped
//! chat-request builder and reply extractor, and the JSON helpers the
//! UI commands are built from.
pub mod chat;
pub mod config;
pub mod confjson;
pub mod digits;
pub mod errs;
pub mod expand;
pub mod json;
pub mod jsonio;
pub mod mindmap;

pub use config::AIConfig;
pub use config::AIProvider;
pub use errs::CoreError;
pub use json::JsonValue;
