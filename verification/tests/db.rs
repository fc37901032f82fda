use std::sync::Mutex;
use wandering_inn_scraper::config::{Config, SourceConfig};
use wandering_inn_scraper::db::migration::needs_migration;
use wandering_inn_scraper::db::{data_changed, toc_upsert, uri_variants, SourceEntry, SourceRegistry, TocUpsert};

fn config_with(ids: &[&str]) -> Config {
    let mut config = Config::default();
    config.sources = ids
        .iter()
        .map(|id| {
            let mut s = SourceConfig::default();
            s.id = id.to_string();
            s.enabled = true;
            s
        })
        .collect();
    config
}

fn registry_for(ids: &[&str]) -> SourceRegistry<Mutex<()>> {
    SourceRegistry::from_config(&config_with(ids), |_s: &SourceConfig| Some(Mutex::new(())))
}

#[test]
fn registry_rejects_path_traversal_in_source_id() {
    let registry = registry_for(&["wandering-inn"]);

    // These are the shapes an attacker sends. None may resolve.
    for hostile in [
        "../../etc/passwd",
        "../wandering-inn",
        "/etc/passwd",
        "wandering-inn/../../../etc/passwd",
        "..",
        ".",
        "",
    ] {
        assert!(registry.get(hostile).is_none(), "source id {:?} must not resolve", hostile);
    }
}

#[test]
fn rejects_unknown_but_harmless_source_id() {
    let registry = registry_for(&["wandering-inn"]);
    assert!(registry.get("royal-road-nope").is_none());
}

#[test]
fn resolves_configured_source_id() {
    let registry = registry_for(&["wandering-inn"]);
    let entry = registry.get("wandering-inn").expect("configured id resolves");
    assert_eq!(entry.config.id, "wandering-inn");
}

#[test]
fn registry_is_send_and_sync() {
    fn assert_send_sync<T: Send + Sync>() {}
    assert_send_sync::<SourceRegistry<Mutex<()>>>();
    assert_send_sync::<SourceEntry<Mutex<()>>>();
}

#[test]
fn disabled_and_unopenable_sources_do_not_resolve() {
    let mut config = config_with(&["a", "b", "c"]);
    config.sources[1].enabled = false;
    let registry = SourceRegistry::from_config(&config, |s: &SourceConfig| {
        if s.id == "c" {
            None
        } else {
            Some(s.id.clone())
        }
    });
    assert_eq!(registry.get("a").unwrap().db(), "a");
    assert!(registry.get("b").is_none(), "a disabled source is never opened");
    assert!(registry.get("c").is_none(), "a source that fails to open is skipped");
    let order: Vec<&str> = registry.entries().iter().map(|e| e.config.id.as_str()).collect();
    assert_eq!(order, vec!["a"]);
}

#[test]
fn entries_keep_config_order() {
    let registry = registry_for(&["z", "a", "m"]);
    let order: Vec<&str> = registry.entries().iter().map(|e| e.config.id.as_str()).collect();
    assert_eq!(order, vec!["z", "a", "m"]);
}

#[test]
fn uri_variants_ignore_trailing_slashes() {
    let (with, without) = uri_variants("https://example.com/chapter-1/");
    assert_eq!(with, "https://example.com/chapter-1/");
    assert_eq!(without, "https://example.com/chapter-1");
    assert_eq!(uri_variants("https://example.com/chapter-1"), (with.clone(), without.clone()));
    assert_eq!(uri_variants("https://example.com/chapter-1///"), (with, without));
    assert_eq!(uri_variants(""), ("/".to_string(), "".to_string()));
}

#[test]
fn toc_sync_inserts_corrects_or_keeps() {
    assert_eq!(toc_upsert(&None, "Chapter 1", 3), TocUpsert::Insert);
    let existing = Some((7, "parsed title".to_string(), Some(1)));
    assert_eq!(toc_upsert(&existing, "Chapter 1", 2), TocUpsert::Correct { id: 7 });
    let existing = Some((7, "Chapter 1".to_string(), Some(1)));
    assert_eq!(toc_upsert(&existing, "Chapter 1", 2), TocUpsert::Correct { id: 7 });
    assert_eq!(toc_upsert(&existing, "Chapter 1", 1), TocUpsert::Keep);
    let orphan = Some((7, "Chapter 1".to_string(), None));
    assert_eq!(toc_upsert(&orphan, "Chapter 1", 1), TocUpsert::Correct { id: 7 });
}

#[test]
fn only_changed_content_is_regenerated() {
    assert!(data_changed(&None, "<p>x</p>"));
    assert!(!data_changed(&None, ""));
    assert!(!data_changed(&Some("<p>x</p>".to_string()), "<p>x</p>"));
    assert!(data_changed(&Some("<p>x</p>".to_string()), "<p>y</p>"));
}

#[test]
fn migration_needs_a_legacy_database_and_no_new_one() {
    assert!(needs_migration(true, false));
    assert!(!needs_migration(true, true));
    assert!(!needs_migration(false, false));
    assert!(!needs_migration(false, true));
}
