//! Core logic of a parallel, range-request based file downloader: how a file
//! is cut into byte ranges, how server headers are read, how names, paths and
//! history entries are derived, and how running downloads are paused,
//! resumed and cancelled.

pub mod types;
pub mod error;
pub mod network;
pub mod text;
pub mod history;
pub mod state;
pub mod commands;
pub mod progress;
