//! The Wandering Inn, read with the configured selectors.
use vstd::prelude::*;
use crate::config::SourceConfig;
use crate::sources::generic::GenericScraper;
use crate::sources::traits::{ChapterContent, ScrapeError, ScrapedChapter, SourceScraper};

verus! {

/// Specialized scraper for The Wandering Inn
/// Wraps GenericScraper with any TWI-specific logic
pub struct WanderingInnScraper {
    inner: GenericScraper,
}

impl WanderingInnScraper {
    pub fn new(config: SourceConfig) -> (s: Self)
        ensures
            s.source() == config,
    {
        WanderingInnScraper { inner: GenericScraper::new(config) }
    }

    /// Create with default Wandering Inn configuration
    pub fn default_config() -> (s: Self)
        ensures
            crate::config::wandering_inn_preset(s.source()),
            s.source().toc_url@ == crate::config::wandering_inn_toc(),
            s.source().auth is NoAuth,
    {
        Self::new(SourceConfig::wandering_inn())
    }

    /// Create with Patreon authentication
    pub fn with_patreon(patreon_name: &str) -> (s: Self)
        ensures
            crate::config::wandering_inn_preset(s.source()),
            crate::config::patreon_as(s.source().auth, patreon_name@),
    {
        Self::new(SourceConfig::wandering_inn_with_patreon(patreon_name))
    }
}

impl SourceScraper for WanderingInnScraper {
    closed spec fn source(&self) -> SourceConfig {
        self.inner.source()
    }

    open spec fn needs_auth(&self) -> bool {
        crate::sources::generic::patreon_name_of(self.source().auth) is Some
    }

    fn source_id(&self) -> (id: &str) {
        self.inner.source_id()
    }

    fn source_name(&self) -> (name: &str) {
        self.inner.source_name()
    }

    fn toc_url(&self) -> (url: &str) {
        self.inner.toc_url()
    }

    fn parse_toc(&self, html: &str) -> (r: Result<Vec<ScrapedChapter>, ScrapeError>)
        ensures
            r matches Ok(v) && crate::sources::generic::toc_read(self.source().selectors, html@, v@),
    {
        self.inner.parse_toc(html)
    }

    fn parse_chapter(&self, html: &str, title: &str) -> (r: Result<ChapterContent, ScrapeError>)
        ensures
            crate::sources::generic::chapter_read(self.source(), title@, html@, r),
    {
        self.inner.parse_chapter(html, title)
    }

    fn build_auth_headers(&self) -> (h: Option<Vec<(String, String)>>)
        ensures
            h is Some <==> crate::sources::generic::patreon_name_of(self.source().auth) is Some,
            h matches Some(v) ==> crate::sources::generic::is_patreon_header(
                v@,
                crate::sources::generic::patreon_name_of(self.source().auth)->0,
            ),
    {
        self.inner.build_auth_headers()
    }

    fn author(&self) -> (a: &str) {
        self.inner.author()
    }

    fn description(&self) -> (d: &str) {
        self.inner.description()
    }

    fn post_processors(&self) -> (p: &Vec<String>) {
        self.inner.post_processors()
    }
}

} // verus!
