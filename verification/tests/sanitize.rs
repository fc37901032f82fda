use wandering_inn_scraper::web::sanitize::sanitize_chapter;

#[test]
fn strips_script_elements() {
    let out = sanitize_chapter("<p>before</p><script>alert(1)</script><p>after</p>");
    assert!(!out.contains("<script"));
    assert!(!out.contains("alert(1)"));
    assert!(out.contains("before"));
    assert!(out.contains("after"));
}

#[test]
fn strips_iframes() {
    let out = sanitize_chapter(r#"<iframe src="https://evil.example/"></iframe><p>text</p>"#);
    assert!(!out.contains("<iframe"));
    assert!(out.contains("text"));
}

#[test]
fn strips_inline_event_handlers() {
    let out = sanitize_chapter(r#"<p onclick="steal()">text</p>"#);
    assert!(!out.contains("onclick"));
    assert!(out.contains("text"));
}

#[test]
fn strips_javascript_urls() {
    let out = sanitize_chapter(r#"<a href="javascript:alert(1)">link</a>"#);
    assert!(!out.contains("javascript:"));
}

#[test]
fn strips_forms() {
    let out = sanitize_chapter(r#"<form action="/config"><input name="x"></form><p>text</p>"#);
    assert!(!out.contains("<form"));
    assert!(!out.contains("<input"));
}

#[test]
fn preserves_prose_structure_and_emphasis() {
    let out = sanitize_chapter("<p>plain <em>emphasis</em> and <strong>strong</strong></p>");
    assert!(out.contains("<em>"));
    assert!(out.contains("<strong>"));
    assert!(out.contains("<p>"));
}

#[test]
fn preserves_inline_colour_styling() {
    // Colour is meaningful in these serials; the strip-colour processor is
    // an explicit opt-in, so the reader must not silently remove it.
    let out = sanitize_chapter(r#"<span style="color: #cc4125;">red text</span>"#);
    assert!(out.contains("color"), "inline colour must survive: {}", out);
    assert!(out.contains("red text"));
}

#[test]
fn is_idempotent() {
    let once = sanitize_chapter("<p>text</p><script>x</script>");
    assert_eq!(sanitize_chapter(&once), once);
}

#[test]
fn strips_style_properties_that_can_fetch_or_execute() {
    let out = sanitize_chapter(
        r#"<span style="background: url(https://evil.example/p.png); color: red; behavior:url(x.htc)">text</span>"#,
    );
    assert!(!out.contains("url("), "style url() survived: {}", out);
    assert!(!out.contains("behavior"), "behavior survived: {}", out);
    assert!(out.contains("color"), "colour must still survive: {}", out);
    assert!(out.contains("text"));
}

#[test]
fn strips_links_to_text_and_keeps_images() {
    let out = sanitize_chapter(r#"<p><a href="https://example.com/">x</a><img src="a.png" alt="y"></p>"#);
    assert!(!out.contains("href"));
    assert!(out.contains("x"));
    assert!(out.contains("<img src=\"a.png\" alt=\"y\">"));
}
