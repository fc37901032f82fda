//! Per-source statistics.
pub mod wordcount;
pub mod cache;
