//! The scrapers of the configured sources, by source id.
use vstd::prelude::*;
use crate::config::{same_source, Config, SourceConfig};
use crate::sources::generic::GenericScraper;
use crate::sources::royal_road::RoyalRoadScraper;
use crate::sources::traits::{ChapterContent, ScrapeError, ScrapedChapter, SourceScraper};
use crate::sources::wandering_inn::WanderingInnScraper;
use crate::text::{starts_with, str_eq};
use crate::text_map::TextMap;

verus! {

/// One of the scrapers this library provides.
pub enum Scraper {
    WanderingInn(WanderingInnScraper),
    Generic(GenericScraper),
    RoyalRoad(RoyalRoadScraper),
}

impl SourceScraper for Scraper {
    open spec fn source(&self) -> SourceConfig {
        match self {
            Scraper::WanderingInn(s) => s.source(),
            Scraper::Generic(s) => s.source(),
            Scraper::RoyalRoad(s) => s.source(),
        }
    }

    open spec fn needs_auth(&self) -> bool {
        match self {
            Scraper::WanderingInn(s) => s.needs_auth(),
            Scraper::Generic(s) => s.needs_auth(),
            Scraper::RoyalRoad(s) => s.needs_auth(),
        }
    }

    fn source_id(&self) -> (id: &str) {
        match self {
            Scraper::WanderingInn(s) => s.source_id(),
            Scraper::Generic(s) => s.source_id(),
            Scraper::RoyalRoad(s) => s.source_id(),
        }
    }

    fn source_name(&self) -> (name: &str) {
        match self {
            Scraper::WanderingInn(s) => s.source_name(),
            Scraper::Generic(s) => s.source_name(),
            Scraper::RoyalRoad(s) => s.source_name(),
        }
    }

    fn toc_url(&self) -> (url: &str) {
        match self {
            Scraper::WanderingInn(s) => s.toc_url(),
            Scraper::Generic(s) => s.toc_url(),
            Scraper::RoyalRoad(s) => s.toc_url(),
        }
    }

    fn parse_toc(&self, html: &str) -> (r: Result<Vec<ScrapedChapter>, ScrapeError>)
        ensures
            r matches Ok(v) && match self {
                Scraper::RoyalRoad(_) => crate::sources::royal_road::toc_read(html@, v@),
                _ => crate::sources::generic::toc_read(self.source().selectors, html@, v@),
            },
    {
        match self {
            Scraper::WanderingInn(s) => s.parse_toc(html),
            Scraper::Generic(s) => s.parse_toc(html),
            Scraper::RoyalRoad(s) => s.parse_toc(html),
        }
    }

    fn parse_chapter(&self, html: &str, title: &str) -> (r: Result<ChapterContent, ScrapeError>)
        ensures
            match self {
                Scraper::RoyalRoad(_) => crate::sources::royal_road::chapter_read(self.source(), title@, html@, r),
                _ => crate::sources::generic::chapter_read(self.source(), title@, html@, r),
            },
    {
        match self {
            Scraper::WanderingInn(s) => s.parse_chapter(html, title),
            Scraper::Generic(s) => s.parse_chapter(html, title),
            Scraper::RoyalRoad(s) => s.parse_chapter(html, title),
        }
    }

    fn build_auth_headers(&self) -> (h: Option<Vec<(String, String)>>)
        ensures
            match self {
                Scraper::RoyalRoad(_) => h is None,
                _ => {
                    &&& h is Some <==> crate::sources::generic::patreon_name_of(self.source().auth) is Some
                    &&& h matches Some(v) ==> crate::sources::generic::is_patreon_header(
                        v@,
                        crate::sources::generic::patreon_name_of(self.source().auth)->0,
                    )
                },
            },
    {
        match self {
            Scraper::WanderingInn(s) => s.build_auth_headers(),
            Scraper::Generic(s) => s.build_auth_headers(),
            Scraper::RoyalRoad(s) => s.build_auth_headers(),
        }
    }

    fn author(&self) -> (a: &str) {
        match self {
            Scraper::WanderingInn(s) => s.author(),
            Scraper::Generic(s) => s.author(),
            Scraper::RoyalRoad(s) => s.author(),
        }
    }

    fn description(&self) -> (d: &str) {
        match self {
            Scraper::WanderingInn(s) => s.description(),
            Scraper::Generic(s) => s.description(),
            Scraper::RoyalRoad(s) => s.description(),
        }
    }

    fn post_processors(&self) -> (p: &Vec<String>) {
        match self {
            Scraper::WanderingInn(s) => s.post_processors(),
            Scraper::Generic(s) => s.post_processors(),
            Scraper::RoyalRoad(s) => s.post_processors(),
        }
    }
}

/// Whether a source id names a Royal Road fiction: it begins with
/// `royal-road-`.
pub open spec fn royal_road_id(id: Seq<char>) -> bool {
    "royal-road-"@.len() <= id.len() && id.take("royal-road-"@.len() as int) == "royal-road-"@
}

/// The scraper that a source gets: the Wandering Inn's own for the source
/// with the id `wandering-inn`, the built-in Royal Road one for an id that
/// begins with `royal-road-`, the selector-driven one for any other.
pub open spec fn scraper_for(source: SourceConfig, s: Scraper) -> bool {
    &&& same_source(s.source(), source)
    &&& source.id@ == "wandering-inn"@ ==> s is WanderingInn
    &&& royal_road_id(source.id@) ==> s is RoyalRoad
    &&& source.id@ != "wandering-inn"@ && !royal_road_id(source.id@) ==> s is Generic
}

/// Source `i` is the last enabled one of `sources` with the id `id`.
pub open spec fn last_enabled_with_id(sources: Seq<SourceConfig>, id: Seq<char>, i: int) -> bool {
    &&& 0 <= i < sources.len()
    &&& sources[i].enabled
    &&& sources[i].id@ == id
    &&& forall|j: int| i < j < sources.len() ==> !((#[trigger] sources[j]).enabled && sources[j].id@ == id)
}

/// Registry for source scrapers
pub struct ScraperRegistry {
    scrapers: TextMap<Scraper>,
}

impl ScraperRegistry {
    /// Every scraper is stored under its source's id.
    pub closed spec fn wf(&self) -> bool {
        &&& self.scrapers.wf()
        &&& forall|k: Seq<char>| #[trigger] self.scrapers@.contains_key(k) ==> self.scrapers@[k].source().id@ == k
    }

    /// The registered scrapers, by source id.
    pub closed spec fn view(&self) -> Map<Seq<char>, Scraper> {
        self.scrapers@
    }

    /// The registered source ids, in the order they were first registered.
    pub closed spec fn ids(&self) -> Seq<Seq<char>> {
        self.scrapers.key_seq()
    }

    /// Create a new empty registry
    pub fn new() -> (r: Self)
        ensures
            r.wf(),
            r@ == Map::<Seq<char>, Scraper>::empty(),
    {
        ScraperRegistry { scrapers: TextMap::new() }
    }

    /// Create a scraper for a source configuration
    pub fn create_scraper(source: &SourceConfig) -> (s: Scraper)
        ensures
            scraper_for(*source, s),
    {
        proof {
            reveal_strlit("wandering-inn");
            reveal_strlit("royal-road-");
        }
        if str_eq(source.id.as_str(), "wandering-inn") {
            proof {
                assert(source.id@.take(11) != "royal-road-"@) by {
                    assert(source.id@.take(11)[0] != "royal-road-"@[0]);
                }
            }
            Scraper::WanderingInn(WanderingInnScraper::new(source.copied()))
        } else if starts_with(source.id.as_str(), "royal-road-") {
            Scraper::RoyalRoad(RoyalRoadScraper::new(source.copied()))
        } else {
            Scraper::Generic(GenericScraper::new(source.copied()))
        }
    }

    /// Register a scraper, under its source's id
    pub fn register(&mut self, scraper: Scraper)
        requires
            old(self).wf(),
        ensures
            final(self).wf(),
            final(self)@ == old(self)@.insert(scraper.source().id@, scraper),
    {
        let id = scraper.source_id().to_string();
        self.scrapers.insert(id.as_str(), scraper);
    }

    /// Build registry from configuration: a scraper for every enabled
    /// source, the last one winning where two share an id.
    pub fn from_config(config: &Config) -> (r: Self)
        ensures
            r.wf(),
            forall|id: Seq<char>| #[trigger] r@.contains_key(id) <==> crate::db::registry::enabled_id(config.sources@, id),
            forall|id: Seq<char>|
                #[trigger] r@.contains_key(id) ==> exists|i: int|
                    last_enabled_with_id(config.sources@, id, i) && scraper_for(config.sources@[i], r@[id]),
    {
        let mut registry = Self::new();
        let ghost sources = config.sources@;
        let mut i: usize = 0;
        while i < config.sources.len()
            invariant
                sources == config.sources@,
                i <= sources.len(),
                registry.wf(),
                forall|id: Seq<char>|
                    #[trigger] registry@.contains_key(id) <==> crate::db::registry::enabled_id(sources.take(i as int), id),
                forall|id: Seq<char>|
                    #[trigger] registry@.contains_key(id) ==> exists|j: int|
                        last_enabled_with_id(sources.take(i as int), id, j) && scraper_for(sources[j], registry@[id]),
            decreases sources.len() - i,
        {
            let source = &config.sources[i];
            let ghost pre = sources.take(i as int);
            let ghost post = sources.take(i + 1);
            proof {
                assert(post == pre.push(sources[i as int]));
            }
            if source.enabled {
                let scraper = Self::create_scraper(source);
                let ghost before = registry@;
                registry.register(scraper);
                proof {
                    assert forall|id: Seq<char>| #[trigger] registry@.contains_key(id) <==> crate::db::registry::enabled_id(post, id) by {
                        if id == source.id@ {
                            assert(post[i as int] == sources[i as int]);
                        } else if registry@.contains_key(id) {
                            assert(before.contains_key(id));
                            let j = choose|j: int| 0 <= j < pre.len() && pre[j].enabled && (#[trigger] pre[j]).id@ == id;
                            assert(post[j] == pre[j]);
                        } else if crate::db::registry::enabled_id(post, id) {
                            let j = choose|j: int| 0 <= j < post.len() && post[j].enabled && (#[trigger] post[j]).id@ == id;
                            assert(j < pre.len());
                            assert(pre[j] == post[j]);
                        }
                    }
                    assert forall|id: Seq<char>| #[trigger] registry@.contains_key(id) implies exists|j: int|
                        last_enabled_with_id(post, id, j) && scraper_for(sources[j], registry@[id]) by {
                        if id == source.id@ {
                            assert(last_enabled_with_id(post, id, i as int));
                        } else {
                            let j = choose|j: int| last_enabled_with_id(pre, id, j) && scraper_for(sources[j], before[id]);
                            assert(pre[j] == post[j]);
                            assert(last_enabled_with_id(post, id, j));
                        }
                    }
                }
            } else {
                proof {
                    assert forall|id: Seq<char>| #[trigger] registry@.contains_key(id) <==> crate::db::registry::enabled_id(post, id) by {
                        if registry@.contains_key(id) {
                            let j = choose|j: int| 0 <= j < pre.len() && pre[j].enabled && (#[trigger] pre[j]).id@ == id;
                            assert(post[j] == pre[j]);
                        } else if crate::db::registry::enabled_id(post, id) {
                            let j = choose|j: int| 0 <= j < post.len() && post[j].enabled && (#[trigger] post[j]).id@ == id;
                            assert(j < pre.len());
                            assert(pre[j] == post[j]);
                        }
                    }
                    assert forall|id: Seq<char>| #[trigger] registry@.contains_key(id) implies exists|j: int|
                        last_enabled_with_id(post, id, j) && scraper_for(sources[j], registry@[id]) by {
                        let j = choose|j: int| last_enabled_with_id(pre, id, j) && scraper_for(sources[j], registry@[id]);
                        assert(pre[j] == post[j]);
                        assert(last_enabled_with_id(post, id, j));
                    }
                }
            }
            i = i + 1;
        }
        proof {
            assert(sources.take(sources.len() as int) == sources);
        }
        registry
    }

    /// Get a scraper by source ID
    pub fn get(&self, source_id: &str) -> (r: Result<&Scraper, ScrapeError>)
        requires
            self.wf(),
        ensures
            r is Ok <==> self@.contains_key(source_id@),
            r matches Ok(s) ==> *s == self@[source_id@],
            r matches Err(e) ==> e matches ScrapeError::SourceNotFound(id) && id@ == source_id@,
    {
        match self.scrapers.get(source_id) {
            Some(s) => Ok(s),
            None => Err(ScrapeError::SourceNotFound(source_id.to_string())),
        }
    }

    /// Get all registered scrapers, in the order their sources were first
    /// registered
    pub fn all(&self) -> (r: Vec<&Scraper>)
        requires
            self.wf(),
        ensures
            r@.len() == self.ids().len(),
            forall|k: int| 0 <= k < r@.len() ==> self@.contains_key(self.ids()[k]) && *(#[trigger] r@[k])
                == self@[self.ids()[k]],
    {
        proof {
            self.scrapers.lemma_entries();
        }
        let mut r: Vec<&Scraper> = Vec::new();
        let mut k: usize = 0;
        while k < self.scrapers.len()
            invariant
                self.wf(),
                k <= self.scrapers.key_seq().len(),
                r@.len() == k,
                self.scrapers.key_seq().len() == self.scrapers.value_seq().len(),
                forall|i: int|
                    0 <= i < self.scrapers.key_seq().len() ==> #[trigger] self.scrapers@.contains_key(
                        self.scrapers.key_seq()[i],
                    ) && self.scrapers@[self.scrapers.key_seq()[i]] == self.scrapers.value_seq()[i],
                forall|j: int| 0 <= j < k ==> self@.contains_key(self.scrapers.key_seq()[j]) && *(#[trigger] r@[j])
                    == self@[self.scrapers.key_seq()[j]],
            decreases self.scrapers.key_seq().len() - k,
        {
            proof {
                assert(self.scrapers@.contains_key(self.scrapers.key_seq()[k as int]));
            }
            r.push(self.scrapers.value_at(k));
            k = k + 1;
        }
        r
    }

    /// Get all source IDs, in registration order
    pub fn source_ids(&self) -> (r: Vec<&str>)
        requires
            self.wf(),
        ensures
            r@.len() == self.ids().len(),
            forall|k: int| 0 <= k < r@.len() ==> (#[trigger] r@[k])@ == self.ids()[k],
            forall|id: Seq<char>| #[trigger] self@.contains_key(id) ==> exists|k: int| 0 <= k < r@.len() && r@[k]@ == id,
    {
        proof {
            self.scrapers.lemma_entries();
        }
        let mut r: Vec<&str> = Vec::new();
        let mut k: usize = 0;
        while k < self.scrapers.len()
            invariant
                self.wf(),
                k <= self.scrapers.key_seq().len(),
                r@.len() == k,
                forall|j: int| 0 <= j < k ==> (#[trigger] r@[j])@ == self.scrapers.key_seq()[j],
            decreases self.scrapers.key_seq().len() - k,
        {
            r.push(self.scrapers.key_at(k).as_str());
            k = k + 1;
        }
        proof {
            assert forall|id: Seq<char>| #[trigger] self@.contains_key(id) implies exists|k: int| 0 <= k < r@.len() && r@[k]@ == id by {
                let k = choose|k: int| 0 <= k < self.scrapers.key_seq().len() && self.scrapers.key_seq()[k] == id;
                assert(r@[k]@ == id);
            }
        }
        r
    }

    /// Check if a source is registered
    pub fn has_source(&self, source_id: &str) -> (b: bool)
        requires
            self.wf(),
        ensures
            b == self@.contains_key(source_id@),
    {
        self.scrapers.get(source_id).is_some()
    }
}

impl Default for ScraperRegistry {
    fn default() -> (r: Self)
        ensures
            r.wf(),
            r@ == Map::<Seq<char>, Scraper>::empty(),
    {
        Self::new()
    }
}

} // verus!
