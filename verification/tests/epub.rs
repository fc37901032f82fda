use wandering_inn_scraper::config::EpubGenConfig;
use wandering_inn_scraper::epub::{book_jobs, BookKind};
use wandering_inn_scraper::config::SourceConfig;
use wandering_inn_scraper::db::{Chapter, Volume};
use wandering_inn_scraper::epub::{
    build_chapter_epub, build_run_epub, build_volume_epub, chapter_epub_steps, isize_text, load_stylesheet,
    process_chapter_data, run_cover_subtitle, sanitize_filename, volume_epub_steps, EpubContext, EpubError,
    EpubStep,
};
use wandering_inn_scraper::postprocess::ProcessorRegistry;

fn chapter(id: isize, name: &str) -> Chapter {
    Chapter { id, name: name.to_string(), uri: format!("https://example.com/c{}", id), volume_id: 1, data_id: None }
}

fn pages(steps: &[EpubStep]) -> Vec<(String, String, String)> {
    steps
        .iter()
        .filter_map(|s| match s {
            EpubStep::Page { href, title, body } => Some((href.clone(), title.clone(), body.clone())),
            _ => None,
        })
        .collect()
}

#[test]
fn sanitize_filename_replaces_path_separators() {
    assert_eq!(sanitize_filename("Chapter 1 — Title// with slashes"), "Chapter 1 — Title-- with slashes");
    assert_eq!(sanitize_filename("back\\slash"), "back-slash");
    assert_eq!(sanitize_filename("plain name"), "plain name");
}

#[test]
fn build_chapter_epub_returns_bytes() {
    let source = SourceConfig::default();
    let registry = ProcessorRegistry::new();
    let ctx = EpubContext { source: &source, processor_registry: &registry };
    let ch = chapter(1, "Chapter One");

    let attachment = build_chapter_epub(&ch, "<h1>Chapter One</h1><p>body text</p>", None, &ctx, false).unwrap();
    assert!(attachment.filename.ends_with(".epub"));
    assert_eq!(attachment.filename, "1(Chapter One).epub");
    assert_eq!(&attachment.bytes[0..2], b"PK");
    assert_eq!(attachment.mime, "application/epub+zip");
}

#[test]
fn build_volume_epub_names_the_file_after_the_volume() {
    let source = SourceConfig::default();
    let registry = ProcessorRegistry::new();
    let ctx = EpubContext { source: &source, processor_registry: &registry };
    let volume = Volume { id: 1, name: "Volume 1".to_string() };
    let chapters = vec![chapter(1, "Chapter One")];
    let data = vec![Some("<h1>Chapter One</h1><p>body text</p>".to_string())];

    let attachment = build_volume_epub(&volume, &chapters, &data, None, &ctx, false).unwrap();
    assert_eq!(attachment.filename, "Volume 1.epub");
    assert!(!attachment.bytes.is_empty());
    // EPUBs are ZIP archives.
    assert_eq!(&attachment.bytes[0..2], b"PK");
}

#[test]
fn an_empty_volume_is_refused() {
    let source = SourceConfig::default();
    let registry = ProcessorRegistry::new();
    let ctx = EpubContext { source: &source, processor_registry: &registry };
    let volume = Volume { id: 1, name: "Volume 1".to_string() };
    let r = build_volume_epub(&volume, &Vec::new(), &Vec::new(), None, &ctx, false);
    assert!(matches!(r, Err(EpubError::NoChapters)));
}

#[test]
fn only_the_last_chapter_may_lack_its_text() {
    let source = SourceConfig::default();
    let registry = ProcessorRegistry::new();
    let ctx = EpubContext { source: &source, processor_registry: &registry };
    let volume = Volume { id: 1, name: "Vol/ume".to_string() };
    let chapters = vec![chapter(1, "One"), chapter(2, "Two"), chapter(3, "Three")];

    let data = vec![Some("<p>1</p>".to_string()), Some("<p>2</p>".to_string()), None];
    let steps = match volume_epub_steps(&volume, &chapters, &data, None, &ctx, false) {
        Ok(s) => s,
        Err(_) => panic!("an unreleased last chapter is skipped"),
    };
    let p = pages(&steps);
    assert_eq!(p.len(), 2);
    assert_eq!(p[0].0, "1(One).xhtml");
    assert_eq!(p[1].1, "Two");

    let data = vec![Some("<p>1</p>".to_string()), None, Some("<p>3</p>".to_string())];
    let r = volume_epub_steps(&volume, &chapters, &data, None, &ctx, false);
    assert!(matches!(r, Err(EpubError::MissingChapterData { chapter_id: 2 })));

    let built = build_volume_epub(&volume, &chapters, &vec![Some("a".to_string()), Some("b".to_string()), None], None, &ctx, true).unwrap();
    assert_eq!(built.filename, "Vol-ume.epub");
}

#[test]
fn chapter_steps_follow_the_builder_order() {
    let mut source = SourceConfig::default();
    source.metadata.author = "pirate aba".to_string();
    let registry = ProcessorRegistry::new();
    let ctx = EpubContext { source: &source, processor_registry: &registry };
    let ch = chapter(-4, "A/B");
    let steps = chapter_epub_steps(&ch, "<span class=\"mrsha-write\">hi</span>", Some(vec![1, 2, 3]), &ctx, false);
    assert_eq!(steps.len(), 7);
    assert!(matches!(&steps[0], EpubStep::Metadata { key, value } if key == "author" && value == "pirate aba"));
    assert!(matches!(&steps[1], EpubStep::Metadata { key, value } if key == "lang" && value == "en"));
    assert!(matches!(&steps[2], EpubStep::Metadata { key, value } if key == "title" && value == "A/B"));
    assert!(matches!(&steps[3], EpubStep::Metadata { key, value } if key == "generator" && value == "rsauvehoover/wandering-inn-scraper"));
    assert!(matches!(&steps[4], EpubStep::Cover { path, image } if path == "-4(A-B).png" && image == &vec![1, 2, 3]));
    assert!(matches!(&steps[5], EpubStep::Stylesheet { css } if css == load_stylesheet()));
    let p = pages(&steps);
    assert_eq!(p, vec![("-4(A-B).xhtml".to_string(), "A/B".to_string(), "<em>hi</em>".to_string())]);
}

#[test]
fn chapter_text_is_written_then_optionally_stripped() {
    let source = SourceConfig::default();
    let registry = ProcessorRegistry::new();
    let ctx = EpubContext { source: &source, processor_registry: &registry };
    let raw = "<span class=\"mrsha-write\">x</span><span style=\"color: #ff0000;\">y</span>";
    assert_eq!(
        process_chapter_data(raw, &ctx, false),
        "<em>x</em><span style=\"color: #ff0000;\">y</span>"
    );
    assert_eq!(process_chapter_data(raw, &ctx, true), "<em>x</em><span>&lt;Red|y|Red&gt;</span>");
}

#[test]
fn a_run_of_chapters_is_named_by_its_ends() {
    let mut source = SourceConfig::default();
    source.name = "The Wandering Inn".to_string();
    let registry = ProcessorRegistry::new();
    let ctx = EpubContext { source: &source, processor_registry: &registry };
    let chapters = vec![chapter(10, "1.00"), chapter(11, "1.01")];
    let data = vec!["<p>a</p>".to_string(), "<p>b</p>".to_string()];
    let a = build_run_epub(&chapters, &data, None, &ctx, false).unwrap();
    assert_eq!(a.filename, "10(1.00)-11(1.01).epub");
    assert_eq!(run_cover_subtitle(&chapters), "1.00 - 1.01");
}

#[test]
fn integers_print_as_rust_prints_them() {
    assert_eq!(isize_text(0), "0");
    assert_eq!(isize_text(-12), "-12");
    assert_eq!(isize_text(isize::MAX), isize::MAX.to_string());
    assert_eq!(isize_text(isize::MIN), isize::MIN.to_string());
}

#[test]
fn book_jobs_follow_the_epub_settings() {
    let view = |g: &EpubGenConfig| -> Vec<(BookKind, String, bool)> {
        book_jobs(g).into_iter().map(|j| (j.kind, j.dir, j.strip_colour)).collect()
    };
    assert_eq!(
        view(&EpubGenConfig { volumes: true, chapters: true, strip_colour: true }),
        vec![
            (BookKind::Volumes, "volumes_stripped_colour".to_string(), true),
            (BookKind::Volumes, "volumes".to_string(), false),
            (BookKind::Chapters, "chapters_stripped_colour".to_string(), true),
            (BookKind::Chapters, "chapters".to_string(), false),
        ]
    );
    assert_eq!(
        view(&EpubGenConfig { volumes: false, chapters: true, strip_colour: false }),
        vec![(BookKind::Chapters, "chapters".to_string(), false)]
    );
    assert!(view(&EpubGenConfig { volumes: false, chapters: false, strip_colour: true }).is_empty());
}
