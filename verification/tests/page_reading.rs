use wandering_inn_scraper::config::SourceConfig;
use wandering_inn_scraper::sources::generic::{chapter_content, toc_chapters, PageVolume};
use wandering_inn_scraper::sources::page::{HeadLink, PageLink};
use wandering_inn_scraper::sources::RoyalRoadScraper;

fn link(href: Option<&str>, text: &str) -> Option<PageLink> {
    Some(PageLink { href: href.map(|h| h.to_string()), text: text.to_string() })
}

fn triples(v: &[wandering_inn_scraper::sources::ScrapedChapter]) -> Vec<(String, String, String)> {
    v.iter().map(|c| (c.title.clone(), c.uri.clone(), c.volume_name.clone())).collect()
}

#[test]
fn toc_chapters_keep_linked_entries_of_every_volume() {
    let volumes = vec![
        PageVolume {
            title: Some("Volume 1".to_string()),
            entries: vec![link(Some("https://a/1"), "  One \n"), link(None, "no href"), None],
        },
        PageVolume { title: None, entries: vec![link(Some("/2"), "Two")] },
    ];
    assert_eq!(
        triples(&toc_chapters(&volumes)),
        vec![
            ("One".to_string(), "https://a/1".to_string(), "Volume 1".to_string()),
            ("Two".to_string(), "/2".to_string(), "Unknown Volume".to_string()),
        ]
    );
    assert!(toc_chapters(&Vec::new()).is_empty());
}

#[test]
fn chapter_content_marks_patron_early_access_in_any_case() {
    let source = SourceConfig::wandering_inn();
    let c = chapter_content(&source, "1.00", "<p>x</p>", "patron EARLY access: 1.00");
    assert!(c.is_patreon_only);
    assert_eq!(c.title, "1.00");
    assert!(c.html.contains("<h1>1.00</h1>\n<p>x</p>\n</body></html>"));
    assert!(c.next_chapter_url.is_none());
    let open = chapter_content(&source, "1.00", "<p>x</p>", "1.00 | The Wandering Inn");
    assert!(!open.is_patreon_only);
}

#[test]
fn royal_road_rows_skip_untitled_and_make_urls_absolute() {
    let rr = RoyalRoadScraper::new(SourceConfig::royal_road("1", "X", "a", "d"));
    let rows = vec![
        link(Some("/fiction/1/x/chapter/2/one"), " Ch 1 "),
        link(Some("http://elsewhere/chapter/3"), "   "),
        link(None, "No link"),
        None,
        link(Some("/fiction/1/x/reviews"), "Reviews"),
    ];
    assert_eq!(
        triples(&rr.toc_rows(&rows, false)),
        vec![
            (
                "Ch 1".to_string(),
                "https://www.royalroad.com/fiction/1/x/chapter/2/one".to_string(),
                "Main Story".to_string()
            ),
            ("Reviews".to_string(), "https://www.royalroad.com/fiction/1/x/reviews".to_string(), "Main Story".to_string()),
        ]
    );
    assert_eq!(
        triples(&rr.toc_rows(&rows, true)),
        vec![(
            "Ch 1".to_string(),
            "https://www.royalroad.com/fiction/1/x/chapter/2/one".to_string(),
            "Main Story".to_string()
        )]
    );
}

fn head(rel: Option<&str>, href: Option<&str>) -> HeadLink {
    HeadLink { rel: rel.map(|r| r.to_string()), href: href.map(|h| h.to_string()) }
}

#[test]
fn royal_road_chapter_takes_first_next_link_and_heading() {
    let rr = RoyalRoadScraper::new(SourceConfig::royal_road("1", "X", "a", "d"));
    let links = vec![head(Some("stylesheet"), Some("/s.css")), head(Some("next"), Some("/fiction/1/x/chapter/3/c"))];
    let c = rr.chapter_content("Listed", "<p>b</p>", Some("  Real Title ".to_string()), &links);
    assert_eq!(c.title, "Real Title");
    assert_eq!(c.next_chapter_url.as_deref(), Some("https://www.royalroad.com/fiction/1/x/chapter/3/c"));
    assert!(!c.is_patreon_only);
    assert!(c.html.contains("<h1>Real Title</h1>"));

    // The first rel="next" link decides, even without an href.
    let links = vec![head(Some("next"), None), head(Some("next"), Some("/b"))];
    let c = rr.chapter_content("Listed", "<p>b</p>", Some("   ".to_string()), &links);
    assert_eq!(c.title, "Listed");
    assert!(c.next_chapter_url.is_none());

    let c = rr.chapter_content("Listed", "", None, &Vec::new());
    assert_eq!(c.title, "Listed");
    assert!(c.next_chapter_url.is_none());
}
