use wandering_inn_scraper::config::{
    migrate_legacy_config, settle_loaded_config, slug_name, AuthConfig, Config, EpubGenConfig, MailConfig,
    SelectorType, Selectors, SourceConfig, SourceMetadata, UserConfig,
};

fn destination(strip: bool, volumes: bool, chapters: bool) -> UserConfig {
    UserConfig {
        name: "Reader".to_string(),
        email: "reader@example.com".to_string(),
        strip_colour: strip,
        send_full_volumes: volumes,
        send_individual_chapters: chapters,
    }
}

fn legacy(toc_url: Option<&str>, patreon_name: Option<&str>) -> Config {
    let mut config = Config::default();
    config.sources = Vec::new();
    config.toc_url = toc_url.map(|s| s.to_string());
    config.patreon_name = patreon_name.map(|s| s.to_string());
    config
}

#[test]
fn defaults_match_the_documented_values() {
    let mail = MailConfig::default();
    assert_eq!(mail.smtp_hostname, "smtp.gmail.com");
    assert_eq!(mail.smtp_port, 587);
    assert!(mail.destinations.is_empty());

    let user = UserConfig::default();
    assert!(!user.strip_colour && user.send_full_volumes && !user.send_individual_chapters);

    let gen = EpubGenConfig::default();
    assert!(gen.volumes && gen.chapters && !gen.strip_colour);

    let selectors = Selectors::default();
    assert_eq!(selectors.volume_wrapper, "volume-wrapper");
    assert_eq!(selectors.volume_title, "h2");
    assert_eq!(selectors.chapter_entry, "chapter-entry");
    assert_eq!(selectors.chapter_link, "a");
    assert_eq!(selectors.main_content, "main-content");
    assert_eq!(selectors.selector_type, SelectorType::Class);
    assert_eq!(SelectorType::default(), SelectorType::Class);
    assert!(matches!(AuthConfig::default(), AuthConfig::NoAuth));

    let metadata = SourceMetadata::default();
    assert_eq!(metadata.author, "Unknown");
    assert_eq!(metadata.description, "");

    let source = SourceConfig::default();
    assert_eq!(source.id, "unknown");
    assert_eq!(source.name, "Unknown Source");
    assert!(source.enabled);
    assert!(source.post_processors.is_empty());

    let config = Config::default();
    assert_eq!(config.request_delay, 1000);
    assert_eq!(config.sources.len(), 1);
    assert_eq!(config.sources[0].id, "wandering-inn");
}

#[test]
fn wandering_inn_preset() {
    let c = SourceConfig::wandering_inn();
    assert_eq!(c.id, "wandering-inn");
    assert_eq!(c.name, "The Wandering Inn");
    assert_eq!(c.toc_url, "https://wanderinginn.com/table-of-contents/");
    assert_eq!(c.metadata.author, "pirate aba");
    assert_eq!(c.post_processors, vec!["mrsha-write".to_string(), "strip-links".to_string()]);
    assert!(matches!(c.auth, AuthConfig::NoAuth));

    let p = SourceConfig::wandering_inn_with_patreon("reader");
    match p.auth {
        AuthConfig::Patreon { patreon_name } => assert_eq!(patreon_name, "reader"),
        AuthConfig::NoAuth => panic!("patreon authentication expected"),
    }
}

#[test]
fn royal_road_preset_builds_id_and_toc_from_the_fiction() {
    let c = SourceConfig::royal_road("21220", "Mother of Learning", "nobody103", "A time loop.");
    assert_eq!(c.id, "royal-road-21220");
    assert_eq!(c.toc_url, "https://www.royalroad.com/fiction/21220/mother-of-learning");
    assert_eq!(c.selectors.volume_wrapper, "volume-selector");
    assert_eq!(c.selectors.volume_title, "h6");
    assert_eq!(c.selectors.chapter_entry, "chapter-row");
    assert_eq!(c.selectors.main_content, "chapter-content");
    assert_eq!(c.metadata.author, "nobody103");
    assert_eq!(c.post_processors, vec!["strip-links".to_string()]);
}

#[test]
fn slugs_collapse_and_trim_separators() {
    assert_eq!(slug_name("Mother of Learning"), "mother-of-learning");
    assert_eq!(slug_name("  The -- Wandering   Inn!  "), "the-wandering-inn");
    assert_eq!(slug_name("Beware Of Chicken"), "beware-of-chicken");
    assert_eq!(slug_name("!!!"), "");
    assert_eq!(slug_name("Café Zoë 2"), "café-zoë-2");
}

#[test]
fn enabled_sources_and_find_source() {
    let mut config = Config::default();
    let mut disabled = SourceConfig::royal_road("1", "One", "a", "d");
    disabled.enabled = false;
    config.sources.push(disabled);
    config.sources.push(SourceConfig::royal_road("2", "Two", "a", "d"));

    let enabled: Vec<&str> = config.enabled_sources().iter().map(|s| s.id.as_str()).collect();
    assert_eq!(enabled, vec!["wandering-inn", "royal-road-2"]);

    assert_eq!(config.find_source("royal-road-1").unwrap().name, "One");
    assert!(config.find_source("royal-road-3").is_none());
}

#[test]
fn legacy_config_becomes_a_wandering_inn_source() {
    let migrated = migrate_legacy_config(legacy(None, None));
    assert_eq!(migrated.sources.len(), 1);
    assert_eq!(migrated.sources[0].id, "wandering-inn");
    assert_eq!(migrated.sources[0].toc_url, "https://wanderinginn.com/table-of-contents/");
    assert!(matches!(migrated.sources[0].auth, AuthConfig::NoAuth));

    let migrated = migrate_legacy_config(legacy(Some("https://example.com/toc/"), Some("reader")));
    assert_eq!(migrated.sources[0].toc_url, "https://example.com/toc/");
    assert!(matches!(&migrated.sources[0].auth, AuthConfig::Patreon { patreon_name } if patreon_name == "reader"));

    let migrated = migrate_legacy_config(legacy(None, Some("")));
    assert!(matches!(migrated.sources[0].auth, AuthConfig::NoAuth));
}

#[test]
fn a_config_with_sources_is_not_migrated() {
    let mut config = Config::default();
    config.toc_url = Some("https://example.com/other/".to_string());
    let migrated = migrate_legacy_config(config);
    assert_eq!(migrated.sources.len(), 1);
    assert_eq!(migrated.sources[0].toc_url, "https://wanderinginn.com/table-of-contents/");
}

#[test]
fn destinations_switch_on_what_they_ask_for() {
    let mut config = Config::default();
    config.epub_gen = EpubGenConfig { volumes: false, chapters: false, strip_colour: false };
    config.mail.destinations = vec![destination(true, false, false), destination(false, false, true)];
    let settled = settle_loaded_config(config);
    assert!(settled.epub_gen.strip_colour);
    assert!(!settled.epub_gen.volumes);
    assert!(settled.epub_gen.chapters);

    let mut config = legacy(None, None);
    config.epub_gen = EpubGenConfig { volumes: false, chapters: false, strip_colour: false };
    let settled = settle_loaded_config(config);
    assert!(!settled.epub_gen.volumes && !settled.epub_gen.chapters && !settled.epub_gen.strip_colour);
    assert_eq!(settled.sources.len(), 1, "a legacy config is migrated once loaded");
}
