use wandering_inn_scraper::web::toc::format_thousands;

#[test]
fn formats_thousands_separators() {
    assert_eq!(format_thousands(0), "0");
    assert_eq!(format_thousands(999), "999");
    assert_eq!(format_thousands(1000), "1,000");
    assert_eq!(format_thousands(26451980), "26,451,980");
}

#[test]
fn formats_the_largest_value() {
    assert_eq!(format_thousands(1234567), "1,234,567");
    assert_eq!(format_thousands(100000), "100,000");
}
