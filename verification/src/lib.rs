//! Indexing, searching and replaying of local Codex session logs.

pub mod text;
pub mod json;
pub mod exec_events;
pub mod session;
pub mod search;
pub mod cli;
pub mod ui_state;
pub mod ui;
pub mod listing;
pub mod application;
pub mod legacy;
pub mod replay;
pub mod selector;
pub mod indexer;
pub mod session_event;
pub mod store;
pub mod schema;
pub mod legacy_selector;
pub mod refresh;
