use clippa_rs::title::{scan_title, TitleScan, TITLE_READ_LIMIT};

fn finished(page: &str) -> Option<String> {
    match scan_title(page) {
        TitleScan::Finished(t) => t,
        TitleScan::TooLong => panic!("too long"),
        TitleScan::KeepReading => panic!("keep reading"),
    }
}

#[test]
fn title_is_trimmed_and_decoded() {
    assert_eq!(finished("<html><head><TITLE> A &amp; B </title>"), Some("A & B".to_string()));
    assert_eq!(finished("<title>&lt;tag&gt; &#39;q&#39;</title>"), Some("<tag> 'q'".to_string()));
}

#[test]
fn title_tags_in_any_case() {
    assert_eq!(finished("<TiTlE>Hello</TITLE> rest"), Some("Hello".to_string()));
}

#[test]
fn title_from_last_opening_tag_before_first_closing_tag() {
    assert_eq!(finished("<title>a</title><title>b</title>"), Some("a".to_string()));
    assert_eq!(finished("<title>outer<title>inner</title>"), Some("inner".to_string()));
}

#[test]
fn empty_or_missing_title() {
    assert_eq!(finished("<title>   </title>"), None);
    assert_eq!(finished("<title></title>"), None);
    assert_eq!(finished("no opening </title>"), None);
}

#[test]
fn reading_goes_on_without_closing_tag() {
    assert!(matches!(scan_title("<title>Hi"), TitleScan::KeepReading));
    assert!(matches!(scan_title(""), TitleScan::KeepReading));
    let at_limit = "a".repeat(TITLE_READ_LIMIT);
    assert!(matches!(scan_title(&at_limit), TitleScan::KeepReading));
}

#[test]
fn reading_stops_past_the_limit() {
    let long = "a".repeat(TITLE_READ_LIMIT + 1);
    assert!(matches!(scan_title(&long), TitleScan::TooLong));
    assert_eq!(TITLE_READ_LIMIT, 32 * 1024);
}

#[test]
fn closing_tag_past_the_limit_still_finishes() {
    let page = format!("<title>T</title>{}", "a".repeat(TITLE_READ_LIMIT));
    assert_eq!(finished(&page), Some("T".to_string()));
}
