//! Multi-source web serial scraper: the verified core.
pub mod book;
pub mod config;
pub mod db;
pub mod epub;
pub mod sources;
pub mod pattern;
pub mod postprocess;
pub mod stats;
pub mod text;
pub mod text_map;
pub mod web;
pub mod webconfig;
