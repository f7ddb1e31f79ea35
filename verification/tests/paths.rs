use clippa_rs::paths::{
    get_archive_dir, get_archive_path, get_screenshot_dir, join, screenshot_path,
    screenshot_tmp_path, url_hash,
};

#[test]
fn archive_dir_is_clippa_under_data_dir() {
    assert_eq!(get_archive_dir("/home/ann/.local/share"), "/home/ann/.local/share/clippa");
}

#[test]
fn archive_dir_with_trailing_separator() {
    assert_eq!(get_archive_dir("/home/ann/.local/share/"), "/home/ann/.local/share/clippa");
}

#[test]
fn archive_dir_of_empty_data_dir() {
    assert_eq!(get_archive_dir(""), "clippa");
}

#[test]
fn archive_path_names_file_after_domain() {
    assert_eq!(
        get_archive_path("/data", "example_com"),
        "/data/clippa/archive_example_com.txt"
    );
}

#[test]
fn screenshot_dir_is_under_archive_dir() {
    assert_eq!(get_screenshot_dir("/data"), "/data/clippa/screenshots");
}

#[test]
fn join_absolute_name_replaces_dir() {
    assert_eq!(join("/data/clippa", "/etc/x"), "/etc/x");
    assert_eq!(join("/data/clippa", "x.txt"), "/data/clippa/x.txt");
    assert_eq!(join("/data/clippa/", "x.txt"), "/data/clippa/x.txt");
}

#[test]
fn url_hash_is_sha256_prefix_in_hex() {
    assert_eq!(url_hash("https://example.com"), "100680ad546ce6a5");
    assert_eq!(url_hash("https://www.rust-lang.org/learn"), "23c499007623b6c8");
}

#[test]
fn url_hash_of_empty_and_non_ascii() {
    assert_eq!(url_hash(""), "e3b0c44298fc1c14");
    assert_eq!(url_hash("https://ünïcode.example/ä"), "92d4bb1ce2ba9374");
}

#[test]
fn url_hash_has_sixteen_hex_digits() {
    let h = url_hash("https://example.org/some/long/path?q=1");
    assert_eq!(h.len(), 16);
    assert!(h.chars().all(|c| c.is_ascii_hexdigit() && !c.is_ascii_uppercase()));
}

#[test]
fn screenshot_path_is_hash_png() {
    assert_eq!(
        screenshot_path("/data", "https://example.com"),
        "/data/clippa/screenshots/100680ad546ce6a5.png"
    );
}

#[test]
fn screenshot_tmp_path_is_hash_tmp_png() {
    assert_eq!(
        screenshot_tmp_path("/data", "https://example.com"),
        "/data/clippa/screenshots/100680ad546ce6a5.tmp.png"
    );
}

#[test]
fn path_functions_at_crate_root() {
    assert_eq!(clippa_rs::url_hash("https://example.com"), "100680ad546ce6a5");
    assert_eq!(clippa_rs::get_archive_path("/d", "x"), "/d/clippa/archive_x.txt");
    assert_eq!(clippa_rs::get_archive_dir("/d"), "/d/clippa");
    assert_eq!(clippa_rs::get_screenshot_dir("/d"), "/d/clippa/screenshots");
    assert_eq!(
        clippa_rs::screenshot_path("/d", "https://example.com"),
        "/d/clippa/screenshots/100680ad546ce6a5.png"
    );
}
