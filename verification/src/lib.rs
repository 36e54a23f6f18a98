//! Verified core of the rqbit desktop client: text formatting, table models
//! (filtering, sorting, selection), dialog state machines and the IPC
//! request authentication rules.
pub mod dialogs;
pub mod file_table;
pub mod hold_to_quit;
pub mod http;
pub mod format;
pub mod index_set;
pub mod ipc;
pub mod panel;
pub mod settings;
pub mod sort;
pub mod text;
pub mod torrent_table;

pub use format::{format_bytes, format_uptime};
