use clippa_rs::links::{count_links, links_content, parse_links, remove_url_line};

fn strings(v: &[&str]) -> Vec<String> {
    v.iter().map(|s| s.to_string()).collect()
}

#[test]
fn parse_links_skips_empty_lines() {
    let got = parse_links("https://a.com\n\nhttps://b.com\r\nhttps://c.com");
    assert_eq!(got, strings(&["https://a.com", "https://b.com", "https://c.com"]));
}

#[test]
fn parse_links_of_empty_content() {
    assert!(parse_links("").is_empty());
    assert!(parse_links("\n\n\r\n").is_empty());
}

#[test]
fn parse_links_keeps_surrounding_spaces() {
    assert_eq!(parse_links("  https://a.com \n"), strings(&["  https://a.com "]));
}

#[test]
fn count_links_counts_non_empty_lines() {
    assert_eq!(count_links("https://a.com\n\nhttps://b.com\n"), 2);
    assert_eq!(count_links(""), 0);
    assert_eq!(count_links("x"), 1);
}

#[test]
fn links_content_ends_each_link_with_newline() {
    assert_eq!(links_content(&strings(&["https://a.com", "https://b.com"])), "https://a.com\nhttps://b.com\n");
    assert_eq!(links_content(&Vec::new()), "");
}

#[test]
fn saved_links_read_back_unchanged() {
    let links = strings(&["https://a.com", "https://b.com/x?y=1", "https://c.com"]);
    assert_eq!(parse_links(&links_content(&links)), links);
}

#[test]
fn remove_url_line_removes_first_trimmed_match() {
    let content = "https://a.com\n  https://b.com  \nhttps://c.com\nhttps://b.com\n";
    assert_eq!(
        remove_url_line(content, "https://b.com"),
        Some("https://a.com\nhttps://c.com\nhttps://b.com\n".to_string())
    );
}

#[test]
fn remove_url_line_keeps_empty_lines() {
    assert_eq!(remove_url_line("a\n\nb\n", "b"), Some("a\n\n".to_string()));
}

#[test]
fn remove_url_line_of_only_line_gives_empty_content() {
    assert_eq!(remove_url_line("https://a.com\n", "https://a.com"), Some(String::new()));
}

#[test]
fn remove_url_line_without_match() {
    assert_eq!(remove_url_line("https://a.com\n", "https://z.com"), None);
    assert_eq!(remove_url_line("", "https://z.com"), None);
}

#[test]
fn removed_line_leaves_one_link_fewer() {
    let content = "https://a.com\n  https://b.com\n\nhttps://b.com\n";
    let after = remove_url_line(content, "https://b.com").unwrap();
    assert_eq!(count_links(content), 3);
    assert_eq!(count_links(&after), 2);
    assert_eq!(parse_links(&after), strings(&["https://a.com", "https://b.com"]));
}
