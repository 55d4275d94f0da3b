//! A depth-bounded web-crawl engine.
//!
//! The engine decides, step by step, which URL to fetch next: it partitions
//! the seed frontier into per-worker chunks, deduplicates visits through a
//! shared visited set, bounds link-following by a configured depth, counts
//! progress per completed seed, and honors a cancellation flag.  Fetching
//! itself is network I/O and is performed by the caller, which hands each
//! outcome back to the engine.

pub mod aspect;
pub mod auth;
pub mod config;
pub mod errors;
pub mod links;
pub mod manager;
pub mod parser;
pub mod persist;
pub mod task;
pub mod visited;
pub mod worker;
pub mod writer;
