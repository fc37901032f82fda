use wandering_inn_scraper::web::download::{content_disposition, DownloadQuery};

#[test]
fn encodes_spaces_and_colons() {
    // This is a real filename from the build directory.
    let header = content_disposition("The Years of Apocalypse: Book 5.epub");

    assert!(header.starts_with("attachment; "), "{}", header);
    // RFC 5987 form carries the exact name.
    assert!(
        header.contains("filename*=UTF-8''The%20Years%20of%20Apocalypse%3A%20Book%205.epub"),
        "{}",
        header
    );
    // The ASCII fallback must be quoted and free of raw quotes.
    assert!(header.contains(r#"filename=""#), "{}", header);
}

#[test]
fn ascii_fallback_contains_no_quotes_or_control_characters() {
    let header = content_disposition("weird \"quoted\" \r\nname.epub");
    let fallback_start = header.find("filename=\"").unwrap() + 10;
    let fallback_end = header[fallback_start..].find('"').unwrap() + fallback_start;
    let fallback = &header[fallback_start..fallback_end];

    assert!(!fallback.contains('"'));
    assert!(!fallback.contains('\r'));
    assert!(!fallback.contains('\n'));
}

#[test]
fn header_is_a_single_line() {
    // A newline here is header injection.
    let header = content_disposition("a\r\nX-Evil: yes.epub");
    assert!(!header.contains('\r'));
    assert!(!header.contains('\n'));
}

#[test]
fn handles_unicode_names() {
    let header = content_disposition("Café Volume 1.epub");
    assert!(header.contains("filename*=UTF-8''"));
    assert!(header.contains("Caf%C3%A9"));
}

#[test]
fn disposition_is_exact_for_a_plain_name() {
    assert_eq!(
        content_disposition("Vol (1)~x.epub"),
        "attachment; filename=\"Vol (1)_x.epub\"; filename*=UTF-8''Vol%20%281%29~x.epub"
    );
}

#[test]
fn stripped_variant_is_chosen_by_one_or_true() {
    let q = |s: Option<&str>| DownloadQuery { stripped: s.map(|s| s.to_string()) };
    assert!(q(Some("1")).strip_colour());
    assert!(q(Some("true")).strip_colour());
    assert!(!q(Some("yes")).strip_colour());
    assert!(!q(Some("0")).strip_colour());
    assert!(!q(None).strip_colour());
    assert!(!DownloadQuery::default().strip_colour());
}
