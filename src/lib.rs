//! Static-site build orchestration: page attribute resolution, HTML rendering,
//! source-file selection, hook output tracking and change debouncing.

pub mod text;
pub mod config;
pub mod html;
pub mod watcher;
pub mod hooks;
pub mod log;
pub mod cli;
pub mod plan;
