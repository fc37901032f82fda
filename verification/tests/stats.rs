use wandering_inn_scraper::stats::cache::{
    compute_source_stat, mean_words, overview_totals, published_from_uri, ChapterRow, SourceStat, StatsCache, VolumeRows,
};
use wandering_inn_scraper::stats::wordcount::count_words;

#[test]
fn counts_plain_prose() {
    assert_eq!(count_words("<p>one two three</p>"), 3);
}

#[test]
fn excludes_style_element_contents() {
    // Royal Road injects a honeypot style block into every chapter.
    // Its CSS text must not be counted as prose.
    let html = r#"<head><style>
            .cmY4NDFlNDA1{ display: none; speak: never; }
        </style></head><body><p>real words here</p></body>"#;
    assert_eq!(count_words(html), 3);
}

#[test]
fn excludes_script_element_contents() {
    let html = r#"<script>document.createElement('audio');</script><p>one two</p>"#;
    assert_eq!(count_words(html), 2);
}

#[test]
fn does_not_decode_entities() {
    assert_eq!(count_words("<p>a&nbsp;b</p>"), 1);
}

#[test]
fn counts_heading_text() {
    assert_eq!(count_words("<h1>Chapter One</h1><p>body text</p>"), 4);
}

#[test]
fn handles_unicode_and_collapses_whitespace() {
    assert_eq!(count_words("<p>café   \n\t  ünïcode</p>"), 2);
}

#[test]
fn empty_input_is_zero() {
    assert_eq!(count_words(""), 0);
    assert_eq!(count_words("<p></p>"), 0);
}

#[test]
fn tags_with_attributes_and_unicode_spaces_separate_words() {
    assert_eq!(count_words("<p class=\"x\">a</p>b\u{3000}c\u{a0}d"), 4);
    assert_eq!(count_words("<style>a b</style>x<STYLE type=\"t\">c d</style >y"), 2);
}

#[test]
fn parses_wandering_inn_date_from_uri() {
    assert_eq!(
        published_from_uri("https://wanderinginn.com/2026/09/02/10-75-pt-2/"),
        Some("2026-09-02".to_string())
    );
}

#[test]
fn returns_none_for_royal_road_uri() {
    assert_eq!(
        published_from_uri(
            "https://www.royalroad.com/fiction/65058/pale-lights/chapter/3804525/epilogue"
        ),
        None
    );
}

#[test]
fn rejects_implausible_date_components() {
    assert_eq!(published_from_uri("https://example.com/9999/99/99/x/"), None);
    assert_eq!(published_from_uri("https://example.com/2026/13/01/x/"), None);
    assert_eq!(published_from_uri("https://example.com/2026/02/32/x/"), None);
    assert_eq!(published_from_uri("https://example.com/chapter/12345/x"), None);
}

#[test]
fn skips_implausible_and_unparsable_windows() {
    assert_eq!(
        published_from_uri("https://example.com/3000/01/01/2020/05/06/"),
        Some("2020-05-06".to_string())
    );
    assert_eq!(
        published_from_uri("https://example.com/abcd/01/01/2020/05/06/"),
        Some("2020-05-06".to_string())
    );
    assert_eq!(published_from_uri("2019/12/31"), Some("2019-12-31".to_string()));
}

#[test]
fn mean_chapter_words_is_zero_for_empty_source() {
    assert_eq!(mean_words(0, 0), 0);
    assert_eq!(mean_words(10, 0), 0);
    assert_eq!(mean_words(100, 4), 25);
}

fn row(id: isize, name: &str, uri: &str, data: Option<&str>) -> ChapterRow {
    ChapterRow {
        id,
        name: name.to_string(),
        uri: uri.to_string(),
        data: data.map(|d| d.to_string()),
    }
}

#[test]
fn pending_chapter_is_excluded_from_totals_but_listed() {
    let volumes = vec![VolumeRows {
        id: 1,
        name: "Volume 1".to_string(),
        chapters: vec![
            row(1, "Chapter 1", "https://example.com/c1", Some("<p>one two three</p>")),
            row(2, "Chapter 2", "https://example.com/c2", None),
        ],
    }];
    let stat = compute_source_stat("test-pending", "Test Pending", &volumes).unwrap();

    assert_eq!(stat.total_chapters, 1, "pending chapter must not count toward the total");
    assert_eq!(stat.pending_chapters, 1);
    assert_eq!(stat.total_words, 3);
    assert_eq!(
        stat.volumes[0].chapters.len(),
        2,
        "the pending chapter must still appear in the TOC listing"
    );
    assert_eq!(
        stat.mean_chapter_words, 3,
        "mean must divide by downloaded chapters, not all listed chapters"
    );
    assert!(!stat.volumes[0].chapters[1].downloaded);
    assert_eq!(stat.volumes[0].chapters[1].words, 0);
}

#[test]
fn latest_published_is_the_greatest_date() {
    let volumes = vec![
        VolumeRows {
            id: 1,
            name: "Volume 1".to_string(),
            chapters: vec![
                row(1, "a", "https://x.com/2021/03/04/a/", Some("<p>w</p>")),
                row(2, "b", "https://x.com/2022/01/01/b/", None),
            ],
        },
        VolumeRows {
            id: 2,
            name: "Volume 2".to_string(),
            chapters: vec![row(3, "c", "https://x.com/2021/12/31/c/", Some("x y"))],
        },
    ];
    let stat = compute_source_stat("s", "S", &volumes).unwrap();
    assert_eq!(stat.latest_published, Some("2022-01-01".to_string()));
    assert_eq!(stat.total_chapters, 2);
    assert_eq!(stat.total_words, 3);
    assert_eq!(stat.volumes[1].words, 2);
    assert_eq!(stat.source_id, "s");
}

#[test]
fn cache_hits_only_under_the_same_version() {
    let mut cache = StatsCache::new();
    let stat = compute_source_stat("t", "T", &Vec::new()).unwrap();
    assert!(cache.lookup("t", Some(1)).is_none());
    cache.insert("t", Some(1), stat);
    assert!(cache.lookup("t", Some(1)).is_some());
    assert!(
        cache.lookup("t", Some(2)).is_none(),
        "cache must observe the writer's commit, not serve stale data"
    );
    assert!(cache.lookup("u", Some(1)).is_none());
}

#[test]
fn volume_lines_count_downloaded_chapters() {
    let vols = vec![VolumeRows {
        id: 1,
        name: "Volume 1".to_string(),
        chapters: vec![
            row(1, "Chapter 1", "https://example.com/c1", Some("<p>one two three</p>")),
            row(2, "Chapter 2", "https://example.com/c2", None),
        ],
    }];
    let stat = compute_source_stat("s", "S", &vols).unwrap();
    assert_eq!(stat.volumes[0].downloaded_chapters(), stat.total_chapters);
    assert_eq!(stat.volumes[0].mean_words(), 3);
}

#[test]
fn skips_a_non_numeric_triple_before_the_date() {
    assert_eq!(
        published_from_uri("https://example.com/abcd/ef/gh/2020/01/02/x/"),
        Some("2020-01-02".to_string())
    );
}

#[test]
fn date_components_are_digits_only() {
    assert_eq!(published_from_uri("https://example.com/2020/+1/05/x/"), None);
    assert_eq!(published_from_uri("https://example.com/2020/+1/05/2021/02/03/"), Some("2021-02-03".to_string()));
}

fn stat_with(words: usize, chapters: usize, pending: usize) -> SourceStat {
    SourceStat {
        source_id: "s".to_string(),
        name: "S".to_string(),
        volumes: Vec::new(),
        total_words: words,
        total_chapters: chapters,
        pending_chapters: pending,
        mean_chapter_words: 0,
        latest_published: None,
    }
}

#[test]
fn overview_totals_sum_every_source() {
    assert_eq!(overview_totals(&vec![stat_with(10, 2, 1), stat_with(5, 1, 0)]), Some((15, 3, 1)));
    assert_eq!(overview_totals(&Vec::new()), Some((0, 0, 0)));
    assert_eq!(overview_totals(&vec![stat_with(usize::MAX, 1, 0), stat_with(1, 1, 0)]), None);
}
