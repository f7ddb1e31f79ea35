use clippa_rs::domain::is_archive_file;
use clippa_rs::harvest::{
    archive_target, candidate_link, get_clean_domain, harvest_notice, is_web_url,
    thumbnail_size, Harvester, THUMBNAIL_MAX,
};
use clippa_rs::links::{archive_line, parse_links};

#[test]
fn web_urls_start_with_http_or_https() {
    assert!(is_web_url("https://a.com"));
    assert!(is_web_url("http://x"));
    assert!(!is_web_url("ftp://x"));
    assert!(!is_web_url(" https://x"));
    assert!(!is_web_url("see https://x"));
    assert!(!is_web_url(""));
}

#[test]
fn clean_domain_drops_www_and_replaces_dots() {
    assert_eq!(get_clean_domain("https://www.example.com/path"), Some("example_com".to_string()));
    assert_eq!(get_clean_domain("http://sub.domain.org:8080/x"), Some("sub_domain_org".to_string()));
    assert_eq!(get_clean_domain("https://docs.rs"), Some("docs_rs".to_string()));
}

#[test]
fn clean_domain_finds_link_inside_text() {
    assert_eq!(get_clean_domain("see https://x.y/z"), Some("x_y".to_string()));
}

#[test]
fn clean_domain_without_host() {
    assert_eq!(get_clean_domain("not a url"), None);
    assert_eq!(get_clean_domain("https://"), None);
    assert_eq!(get_clean_domain("https:///path"), None);
}

#[test]
fn clean_domain_of_bare_www() {
    assert_eq!(get_clean_domain("https://www."), Some("www_".to_string()));
}

#[test]
fn candidate_link_trims_clipboard_text() {
    assert_eq!(candidate_link("  https://a.com/x \n"), Some("https://a.com/x".to_string()));
    assert_eq!(candidate_link("hello"), None);
    assert_eq!(candidate_link(""), None);
    assert_eq!(candidate_link("   "), None);
}

#[test]
fn archive_target_names_domain_and_file() {
    let t = archive_target("https://www.example.com/a", "/data").unwrap();
    assert_eq!(t.domain, "example_com");
    assert_eq!(t.path, "/data/clippa/archive_example_com.txt");
    assert!(archive_target("mailto:x@y.z", "/data").is_none());
}

#[test]
fn harvest_notice_names_domain() {
    assert_eq!(harvest_notice("example_com"), "Stored under example_com");
}

#[test]
fn thumbnail_of_landscape_and_portrait() {
    assert_eq!(thumbnail_size(1920, 1080), (720, 405));
    assert_eq!(thumbnail_size(1080, 1920), (405, 720));
    assert_eq!(thumbnail_size(100, 200), (360, 720));
}

#[test]
fn thumbnail_of_square_and_tiny_sides() {
    assert_eq!(thumbnail_size(500, 500), (720, 720));
    assert_eq!(thumbnail_size(5000, 3), (720, 1));
    assert_eq!(thumbnail_size(3, 5000), (1, 720));
    assert_eq!(thumbnail_size(1, 0), (720, 1));
    assert_eq!(THUMBNAIL_MAX, 720);
}

#[test]
fn harvester_archives_new_link() {
    let h = Harvester::new();
    let got = h.on_clipboard("  https://www.example.com/page \n", "/data").unwrap();
    assert_eq!(got.url, "https://www.example.com/page");
    assert_eq!(got.domain, "example_com");
    assert_eq!(got.path, "/data/clippa/archive_example_com.txt");
}

#[test]
fn harvester_skips_recorded_link() {
    let mut h = Harvester::new();
    h.record("https://example.com/a".to_string());
    assert!(h.has_seen(&"https://example.com/a".to_string()));
    assert!(h.on_clipboard("https://example.com/a", "/data").is_none());
    assert!(h.on_clipboard("\thttps://example.com/a  ", "/data").is_none());
    assert!(h.on_clipboard("https://example.com/b", "/data").is_some());
    h.record("https://example.com/a".to_string());
    assert_eq!(h.seen.len(), 1);
}

#[test]
fn harvester_skips_links_already_in_archive() {
    let mut h = Harvester::new();
    h.remember_archive("https://a.com/1\n\nhttps://a.com/2\nhttps://a.com/1\n");
    assert_eq!(h.seen.len(), 2);
    assert!(h.on_clipboard("https://a.com/2", "/data").is_none());
    assert!(h.on_clipboard("https://a.com/3", "/data").is_some());
}

#[test]
fn harvester_ignores_text_that_is_no_link() {
    let h = Harvester::new();
    assert!(h.on_clipboard("just some words", "/data").is_none());
    assert!(h.on_clipboard("", "/data").is_none());
    assert!(h.on_clipboard("https://", "/data").is_none());
}

#[test]
fn archive_files_end_in_txt() {
    assert!(is_archive_file("archive_example_com.txt"));
    assert!(is_archive_file("a.b.txt"));
    assert!(!is_archive_file("screenshots"));
    assert!(!is_archive_file(".txt"));
    assert!(!is_archive_file("notes.txt.bak"));
    assert!(!is_archive_file("x.TXT"));
    assert!(!is_archive_file(""));
}

#[test]
fn appended_link_is_read_back_last() {
    let content = "https://a.com/1\n\nhttps://a.com/2\n".to_string();
    let line = archive_line("https://a.com/3");
    assert_eq!(line, "https://a.com/3\n");
    let links = parse_links(&(content + &line));
    assert_eq!(links, vec!["https://a.com/1", "https://a.com/2", "https://a.com/3"]);
    assert_eq!(parse_links(&archive_line("https://b.com")), vec!["https://b.com"]);
}
