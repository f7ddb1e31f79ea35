use clippa_rs::domain::{archive_key_of, domain_key_of, domain_name};
use clippa_rs::paths::get_archive_path;

#[test]
fn domain_name_drops_prefix_extension_and_www() {
    assert_eq!(domain_name("archive_www_example_com.txt"), "example.com");
    assert_eq!(domain_name("archive_example_com.txt"), "example.com");
}

#[test]
fn domain_name_turns_underscores_into_dots() {
    assert_eq!(domain_name("archive_news_ycombinator_com.txt"), "news.ycombinator.com");
}

#[test]
fn domain_name_keeps_inner_dots_of_stem() {
    assert_eq!(domain_name("archive_a.b.txt"), "a.b");
}

#[test]
fn domain_name_of_names_without_prefix_or_extension() {
    assert_eq!(domain_name("notes"), "notes");
    assert_eq!(domain_name(".hidden"), ".hidden");
    assert_eq!(domain_name("trailing."), "trailing");
    assert_eq!(domain_name(""), "");
}

#[test]
fn archive_key_keeps_underscores_and_www() {
    assert_eq!(archive_key_of("archive_www_example_com.txt"), "www_example_com");
    assert_eq!(archive_key_of("archive_example_com.txt"), "example_com");
    assert_eq!(archive_key_of("other.txt"), "other");
    assert_eq!(archive_key_of(""), "");
}

#[test]
fn domain_key_turns_dots_into_underscores() {
    assert_eq!(domain_key_of("sub.example.co.uk"), "sub_example_co_uk");
    assert_eq!(domain_key_of("localhost"), "localhost");
}

#[test]
fn stored_domain_is_shown_back() {
    for domain in ["example.com", "docs.rs", "a.b.c.d", "localhost"] {
        let key = domain_key_of(domain);
        let path = get_archive_path("/data", &key);
        let name = path.rsplit('/').next().unwrap().to_string();
        assert_eq!(domain_name(&name), domain);
    }
}

#[test]
fn stored_domain_with_underscore_is_not_shown_back() {
    let key = domain_key_of("my_site.org");
    assert_eq!(key, "my_site_org");
    assert_eq!(domain_name(&format!("archive_{}.txt", key)), "my.site.org");
}
