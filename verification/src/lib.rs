//! The decisions behind a program that provokes hangs of an HTTP client which is shared between
//! runtimes: it tracks the requests that are under way, watches over the run, and says what it
//! finds.

pub mod answers;
pub mod exchange;
pub mod headers;
pub mod laws;
pub mod monitor;
pub mod post_drop;
pub mod relations;
pub mod report;
pub mod run_state;
pub mod server;
pub mod tasks;
pub mod text;
pub mod tracker;
pub mod verdict;
