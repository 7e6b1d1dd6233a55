//! Verified core of a desktop file-search tool: query planning for the
//! SQLite index, path exclusion rules, the indexing and file-watching state
//! machines, settings defaults and hotkey parsing.
pub mod text;
pub mod db;
pub mod indexer;
pub mod settings;
pub mod hotkey;
pub mod watcher;
pub mod commands;
