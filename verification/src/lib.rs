//! Change detection for a watched directory tree: path rules, a snapshot
//! store, line diffs, event coalescing and the debounce controller.

pub mod changelog;
pub mod controller;
pub mod cycle;
pub mod diff;
pub mod lines;
pub mod paths;
pub mod pending;
pub mod scanner;
pub mod store;
pub mod summarizer;
pub mod text;
