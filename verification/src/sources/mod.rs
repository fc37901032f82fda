//! The sources a serial is scraped from: how each one's table of contents
//! and chapter pages are read, and what the scraper does with a downloaded
//! chapter.
pub mod client;
pub mod dom;
pub mod download;
pub mod generic;
pub mod page;
pub mod registry;
pub mod royal_road;
pub mod traits;
pub mod wandering_inn;

pub use client::{ChapterAction, DiscoveredChapter};
pub use generic::GenericScraper;
pub use registry::{Scraper, ScraperRegistry};
pub use royal_road::RoyalRoadScraper;
pub use traits::{ChapterContent, ScrapeError, ScrapedChapter, SourceScraper};
pub use wandering_inn::WanderingInnScraper;
