//! CC Switch: the rules by which it starts with the operating system, keeps
//! Cursor's configuration, and imports usage from Cursor and Hermes.
//!
//! Files, databases, the network and the operating system are outside: the
//! functions here take what was read and say what is to be written. Each states
//! in its contract what it returns, and public proof functions named `law_..`
//! state what holds across functions.

pub mod auto_launch;
pub mod binary64;
pub mod cursor_config;
pub mod cursor_events;
pub mod cursor_models;
pub mod cursor_sync;
pub mod error;
pub mod hermes_import;
pub mod hermes_sync;
pub mod hermes_usage;
pub mod json;
pub mod location;
pub mod mcp_cursor;
pub mod money;
pub mod numeral;
pub mod outside;
pub mod request_log;
pub mod str_map;
pub mod sync_result;
pub mod text;
pub mod usage_cells;
