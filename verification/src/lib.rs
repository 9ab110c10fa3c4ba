pub mod dir_watcher;
pub mod language;
pub mod log;
pub mod log_entry;
pub mod pattern;
pub mod reader;
pub mod text;
