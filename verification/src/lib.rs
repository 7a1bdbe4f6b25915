//! Retrieval-and-filtering engine for a project-tracking board.
//!
//! The library resolves a project identifier, classifies board items
//! (archived / column / iteration / content type), applies an elapsed-time
//! cutoff, and accumulates diagnostic counters, all with verified contracts.

pub mod dates;
pub mod models;
pub mod strutil;
pub mod iteration;
pub mod clock;
pub mod time_filter;
pub mod resolver;
pub mod fetcher;
