use wandering_inn_scraper::config::{AuthConfig, Config, SourceConfig};
use wandering_inn_scraper::sources::client::{chapter_action, cookie_headers, seed_name, seed_volume};
use wandering_inn_scraper::sources::traits::escape_entities;
use wandering_inn_scraper::sources::{
    ChapterAction, ChapterContent, GenericScraper, RoyalRoadScraper, Scraper, ScraperRegistry, ScrapeError,
    SourceScraper, WanderingInnScraper,
};

fn content(html: &str, patreon: bool, next: Option<&str>, next_title: Option<&str>) -> ChapterContent {
    ChapterContent {
        title: "T".to_string(),
        html: html.to_string(),
        is_patreon_only: patreon,
        next_chapter_url: next.map(|s| s.to_string()),
        next_chapter_title: next_title.map(|s| s.to_string()),
    }
}

#[test]
fn royal_road_urls_are_made_absolute() {
    let rr = RoyalRoadScraper::new(SourceConfig::royal_road("1", "X", "a", "d"));
    assert_eq!(rr.normalize_url("/fiction/1/x/chapter/2/y"), "https://www.royalroad.com/fiction/1/x/chapter/2/y");
    assert_eq!(rr.normalize_url("https://example.com/a"), "https://example.com/a");
    assert_eq!(rr.normalize_url("chapter/2"), "chapter/2");
    assert_eq!(rr.normalize_url(""), "");
}

#[test]
fn generic_toc_reads_volumes_and_trims_titles() {
    let scraper = GenericScraper::new(SourceConfig::wandering_inn());
    let html = r#"<html><body>
        <div class="volume-wrapper"><h2>Volume 1</h2>
          <div class="chapter-entry"><a href="https://wanderinginn.com/2017/03/03/1-00/">  1.00 </a></div>
          <div class="chapter-entry"><a href="https://wanderinginn.com/2017/03/04/1-01/">1.01</a></div>
          <div class="chapter-entry"><span>no link</span></div>
        </div>
        <div class="volume-wrapper">
          <div class="chapter-entry"><a href="/x">Untitled volume chapter</a></div>
        </div>
    </body></html>"#;
    let chapters = scraper.parse_toc(html).unwrap();
    assert_eq!(chapters.len(), 3);
    assert_eq!(chapters[0].title, "1.00");
    assert_eq!(chapters[0].uri, "https://wanderinginn.com/2017/03/03/1-00/");
    assert_eq!(chapters[0].volume_name, "Volume 1");
    assert_eq!(chapters[2].volume_name, "Unknown Volume");
}

#[test]
fn generic_chapter_is_wrapped_in_the_source_document() {
    let mut config = SourceConfig::wandering_inn();
    config.selectors.main_content = "main".to_string();
    let scraper = GenericScraper::new(config);
    let page = r#"<html><head><title>1.00 | Patron Early Access</title></head><body><div id="main"><p>Hi &lt;there&gt;</p></div></body></html>"#;
    let c = scraper.parse_chapter(page, "1.00").unwrap();
    assert_eq!(c.title, "1.00");
    assert!(c.is_patreon_only);
    assert!(c.html.contains("<meta name=\"author\" content=\"pirate aba\"/>"));
    assert!(c.html.contains("<title>The Wandering Inn</title>"));
    assert!(c.html.contains("\n<h1>1.00</h1>\n"));
    assert!(c.html.contains("<div id=\"main\"><p>Hi &lt;there&gt;</p></div>"), "{}", c.html);
    assert!(c.html.ends_with("</body></html>\n"));
    assert!(c.next_chapter_url.is_none());

    match scraper.parse_chapter("<p>nothing</p>", "x") {
        Err(ScrapeError::ContentNotFound(m)) => assert_eq!(m, "Main content element 'main' not found"),
        other => panic!("expected ContentNotFound, got {:?}", other.map(|c| c.title)),
    }
}

#[test]
fn royal_road_toc_and_chapter() {
    let rr = RoyalRoadScraper::new(SourceConfig::royal_road("1", "X", "a", "d"));
    let toc = r#"<table><tbody>
        <tr class="chapter-row"><td><a href="/fiction/1/x/chapter/10/one"> One </a></td></tr>
        <tr class="chapter-row"><td><a href="/fiction/1/x/chapter/11/two">   </a></td></tr>
    </tbody></table>"#;
    let chapters = rr.parse_toc(toc).unwrap();
    assert_eq!(chapters.len(), 1);
    assert_eq!(chapters[0].title, "One");
    assert_eq!(chapters[0].uri, "https://www.royalroad.com/fiction/1/x/chapter/10/one");
    assert_eq!(chapters[0].volume_name, "Main Story");

    let fallback = r#"<table id="chapters"><tr><td><a href="/fiction/1/x/chapter/12/three">Three</a></td></tr>
        <tr><td><a href="/fiction/1/x/reviews">Reviews</a></td></tr></table>"#;
    let chapters = rr.parse_toc(fallback).unwrap();
    assert_eq!(chapters.len(), 1);
    assert_eq!(chapters[0].title, "Three");

    let page = r#"<html><head><link rel="next" href="/fiction/1/x/chapter/11/two"></head>
        <body><h1> Chapter One </h1><div class="chapter-inner chapter-content"><p>text</p></div></body></html>"#;
    let c = rr.parse_chapter(page, "given").unwrap();
    assert_eq!(c.title, "Chapter One");
    assert_eq!(c.next_chapter_url.as_deref(), Some("https://www.royalroad.com/fiction/1/x/chapter/11/two"));
    assert!(!c.is_patreon_only);
    assert!(matches!(rr.parse_chapter("<p></p>", "t"), Err(ScrapeError::ContentNotFound(_))));
}

#[test]
fn entities_are_escaped_before_parsing() {
    assert_eq!(escape_entities("a &lt; b &gt; c&nbsp;d &amp; e"), "a &amp;lt; b &amp;gt; c&amp;nbsp;d &amp; e");
}

#[test]
fn patreon_cookie_only_with_a_name() {
    let plain = WanderingInnScraper::default_config();
    assert!(plain.build_auth_headers().is_none());
    assert!(!plain.requires_auth());

    let patron = WanderingInnScraper::with_patreon("reader");
    let headers = patron.build_auth_headers().unwrap();
    assert_eq!(headers.len(), 1);
    assert_eq!(headers[0].0, "Cookie");
    assert!(headers[0].1.starts_with("patreon_verified=1; patreon_verified_time="));
    assert!(headers[0].1.ends_with("; patreon_patron_status=active_patron; patreon_user_name=reader;"));
    assert!(patron.requires_auth());
    assert!(!RoyalRoadScraper::new(SourceConfig::royal_road("1", "X", "a", "d")).requires_auth());

    let mut config = SourceConfig::wandering_inn();
    config.auth = AuthConfig::Patreon { patreon_name: String::new() };
    assert!(GenericScraper::new(config).build_auth_headers().is_none());
}

#[test]
fn only_cookie_headers_are_sent() {
    let headers = vec![
        ("Cookie".to_string(), "a=1".to_string()),
        ("X-Other".to_string(), "b".to_string()),
        ("COOKIE".to_string(), "c=3".to_string()),
    ];
    assert_eq!(cookie_headers(&headers), vec!["a=1".to_string(), "c=3".to_string()]);
}

#[test]
fn patron_only_chapters_without_credentials_are_removed() {
    let pp = vec!["strip-links".to_string()];
    assert!(matches!(chapter_action(content("x", true, None, None), false, &pp, "c", None), ChapterAction::Remove));
    match chapter_action(content("<p>a<a href=\"/x\">link</a>b</p>", true, None, None), true, &pp, "c", None) {
        ChapterAction::Store { html, next } => {
            assert_eq!(html, "<p>ab</p>");
            assert!(next.is_none());
        }
        ChapterAction::Remove => panic!("an authenticated download is kept"),
    }
}

#[test]
fn next_chapter_links_are_discovered() {
    let none: Vec<String> = Vec::new();
    match chapter_action(content("<a>x</a>", false, Some("https://x/2"), None), false, &none, "One", None) {
        ChapterAction::Store { html, next } => {
            assert_eq!(html, "<a>x</a>", "links stay when the source does not strip them");
            let d = next.unwrap();
            assert_eq!(d.uri, "https://x/2");
            assert_eq!(d.title, "Chapter (discovered from One)");
            assert_eq!(d.volume_name, "Main Story");
        }
        ChapterAction::Remove => panic!("kept"),
    }
    match chapter_action(content("", false, Some("u"), Some("Two")), false, &none, "One", Some("Vol 2".to_string())) {
        ChapterAction::Store { next, .. } => {
            let d = next.unwrap();
            assert_eq!(d.title, "Two");
            assert_eq!(d.volume_name, "Vol 2");
        }
        ChapterAction::Remove => panic!("kept"),
    }
}

#[test]
fn scraper_registry_covers_enabled_sources() {
    let mut config = Config::default();
    let mut off = SourceConfig::royal_road("9", "Off", "a", "d");
    off.enabled = false;
    config.sources.push(off);
    config.sources.push(SourceConfig::royal_road("2", "Two", "a", "d"));
    let mut custom = SourceConfig::wandering_inn();
    custom.id = "my-serial".to_string();
    config.sources.push(custom);
    let registry = ScraperRegistry::from_config(&config);
    assert!(registry.has_source("wandering-inn"));
    assert!(registry.has_source("royal-road-2"));
    assert!(!registry.has_source("royal-road-9"));
    assert!(matches!(registry.get("wandering-inn"), Ok(Scraper::WanderingInn(_))));
    // The `royal-road-` prefix selects the built-in Royal Road scraper.
    assert!(matches!(registry.get("royal-road-2"), Ok(Scraper::RoyalRoad(_))));
    assert!(matches!(registry.get("my-serial"), Ok(Scraper::Generic(_))));
    match registry.get("nope") {
        Err(ScrapeError::SourceNotFound(id)) => assert_eq!(id, "nope"),
        _ => panic!("unknown source"),
    }
    assert_eq!(registry.source_ids(), vec!["wandering-inn", "royal-road-2", "my-serial"]);
    assert_eq!(registry.all().len(), 3);
    assert_eq!(ScraperRegistry::default().source_ids().len(), 0);
}

#[test]
fn generic_toc_lists_linked_entries_by_volume() {
    let s = GenericScraper::new(SourceConfig::default());
    let html = "<div class='volume-wrapper'><h2>Vol A</h2><p class='chapter-entry'><a href='/c1'> One </a></p><p class='chapter-entry'><span>x</span></p></div><div class='volume-wrapper'><p class='chapter-entry'><a href='/c2'>Two</a></p></div>";
    let chapters = s.parse_toc(html).unwrap();
    let got: Vec<(String, String, String)> =
        chapters.into_iter().map(|c| (c.title, c.uri, c.volume_name)).collect();
    assert_eq!(
        got,
        vec![
            ("One".to_string(), "/c1".to_string(), "Vol A".to_string()),
            ("Two".to_string(), "/c2".to_string(), "Unknown Volume".to_string()),
        ]
    );
}

#[test]
fn seeded_chapter_name_and_volume_fall_back() {
    assert_eq!(seed_name(Some("Given"), "Page"), Some("Given".to_string()));
    assert_eq!(seed_name(None, "Page"), Some("Page".to_string()));
    assert_eq!(seed_name(None, ""), None);
    assert_eq!(seed_name(Some(""), "Page"), None);
    assert_eq!(seed_volume(Some("Vol 9"), Some("Vol 1".to_string())), Some("Vol 9".to_string()));
    assert_eq!(seed_volume(None, Some("Vol 1".to_string())), Some("Vol 1".to_string()));
    assert_eq!(seed_volume(None, None), None);
}
