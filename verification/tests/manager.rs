use clippa_rs::manager::{App, Deletion, Effect, Mode, SearchHit};
use std::collections::HashSet;

fn strings(v: &[&str]) -> Vec<String> {
    v.iter().map(|s| s.to_string()).collect()
}

fn three_domains() -> App {
    App::new(
        "/arch".to_string(),
        strings(&["archive_a_com.txt", "archive_b_com.txt", "archive_c_com.txt"]),
        vec![2, 0, 1],
    )
}

fn set(v: &[usize]) -> HashSet<usize> {
    v.iter().copied().collect()
}

#[test]
fn new_highlights_first_file() {
    let app = three_domains();
    assert_eq!(app.file_selected, Some(0));
    assert_eq!(app.mode, Mode::BrowsingFiles);
    assert_eq!(app.prev_mode, Mode::BrowsingFiles);
    assert!(app.links.is_empty());
    assert_eq!(app.link_selected, None);
    assert!(!app.should_quit);
    let empty = App::new("/arch".to_string(), Vec::new(), Vec::new());
    assert_eq!(empty.file_selected, None);
}

#[test]
fn next_and_previous_wrap_over_files() {
    let mut app = three_domains();
    assert_eq!(app.next(), Effect::LoadLinks);
    assert_eq!(app.file_selected, Some(1));
    app.next();
    app.next();
    assert_eq!(app.file_selected, Some(0));
    assert_eq!(app.previous(), Effect::LoadLinks);
    assert_eq!(app.file_selected, Some(2));
    app.previous();
    assert_eq!(app.file_selected, Some(1));
}

#[test]
fn moving_to_another_file_drops_link_marks() {
    let mut app = three_domains();
    app.selected_links = set(&[0, 1]);
    app.selected_files = set(&[2]);
    app.next();
    assert!(app.selected_links.is_empty());
    assert_eq!(app.selected_files, set(&[2]));
}

#[test]
fn forward_then_back_returns_to_same_entry() {
    let mut app = three_domains();
    for start in 0..3 {
        app.file_selected = Some(start);
        app.next();
        app.previous();
        assert_eq!(app.file_selected, Some(start));
        app.previous();
        app.next();
        assert_eq!(app.file_selected, Some(start));
    }
}

#[test]
fn load_links_reads_non_empty_lines_and_counts_them() {
    let mut app = three_domains();
    let fetch = app.load_links("https://a.com/1\n\nhttps://a.com/2\n");
    assert!(!fetch);
    assert_eq!(app.links, strings(&["https://a.com/1", "https://a.com/2"]));
    assert_eq!(app.file_link_counts, vec![2, 0, 1]);
    assert_eq!(app.link_selected, Some(0));
    app.link_selected = Some(5);
    app.load_links("x\ny\nz\n");
    assert_eq!(app.file_link_counts, vec![3, 0, 1]);
    assert_eq!(app.link_selected, Some(0));
    app.link_selected = Some(2);
    app.load_links("x\ny\nz\n");
    assert_eq!(app.link_selected, Some(2));
}

#[test]
fn load_links_of_empty_file_keeps_first_position() {
    let mut app = three_domains();
    app.load_links("");
    assert!(app.links.is_empty());
    assert_eq!(app.link_selected, Some(0));
    assert_eq!(app.file_link_counts[0], 0);
}

#[test]
fn load_links_while_browsing_links_asks_for_title() {
    let mut app = three_domains();
    app.load_links("https://a.com/1\n");
    assert!(app.open_links());
    assert!(app.load_links("https://a.com/1\n"));
    assert_eq!(app.title_to_fetch(), Some("https://a.com/1".to_string()));
}

#[test]
fn open_links_needs_links() {
    let mut app = three_domains();
    assert!(!app.open_links());
    assert_eq!(app.mode, Mode::BrowsingFiles);
    app.load_links("https://a.com/1\n");
    assert!(app.open_links());
    assert_eq!(app.mode, Mode::BrowsingLinks);
    app.back_to_files();
    assert_eq!(app.mode, Mode::BrowsingFiles);
}

#[test]
fn next_over_links_wraps_and_asks_for_title() {
    let mut app = three_domains();
    app.load_links("u1\nu2\n");
    app.open_links();
    assert_eq!(app.next(), Effect::FetchTitle);
    assert_eq!(app.link_selected, Some(1));
    assert_eq!(app.next(), Effect::FetchTitle);
    assert_eq!(app.link_selected, Some(0));
    assert_eq!(app.previous(), Effect::FetchTitle);
    assert_eq!(app.link_selected, Some(1));
    assert_eq!(app.file_selected, Some(0));
}

#[test]
fn next_over_no_links_does_nothing() {
    let mut app = three_domains();
    app.mode = Mode::BrowsingLinks;
    assert_eq!(app.next(), Effect::Nothing);
    assert_eq!(app.link_selected, None);
    assert_eq!(app.previous(), Effect::Nothing);
}

#[test]
fn next_in_image_view_does_nothing() {
    let mut app = three_domains();
    app.show_image();
    assert_eq!(app.next(), Effect::Nothing);
    assert_eq!(app.file_selected, Some(0));
}

#[test]
fn next_and_prev_domain() {
    let mut app = three_domains();
    assert_eq!(app.next_domain(), Effect::LoadLinks);
    assert_eq!(app.file_selected, Some(1));
    app.load_links("u\n");
    app.open_links();
    app.selected_links = set(&[0]);
    assert_eq!(app.prev_domain(), Effect::LoadLinksThenFetchTitle);
    assert_eq!(app.file_selected, Some(0));
    assert!(app.selected_links.is_empty());
    assert_eq!(app.prev_domain(), Effect::LoadLinksThenFetchTitle);
    assert_eq!(app.file_selected, Some(2));
    let mut empty = App::new("/arch".to_string(), Vec::new(), Vec::new());
    assert_eq!(empty.next_domain(), Effect::Nothing);
    assert_eq!(empty.prev_domain(), Effect::Nothing);
    assert_eq!(empty.file_selected, None);
}

#[test]
fn toggle_selection_twice_restores_marks() {
    let mut app = three_domains();
    app.toggle_selection();
    assert_eq!(app.selected_files, set(&[0]));
    app.toggle_selection();
    assert!(app.selected_files.is_empty());
    app.load_links("u1\nu2\n");
    app.open_links();
    app.next();
    app.toggle_selection();
    assert_eq!(app.selected_links, set(&[1]));
    assert!(app.selected_files.is_empty());
}

#[test]
fn toggle_select_all_marks_then_clears() {
    let mut app = three_domains();
    app.toggle_select_all();
    assert_eq!(app.selected_files, set(&[0, 1, 2]));
    app.toggle_select_all();
    assert!(app.selected_files.is_empty());
    app.selected_files = set(&[1]);
    app.toggle_select_all();
    assert_eq!(app.selected_files, set(&[0, 1, 2]));
}

#[test]
fn toggle_select_all_on_empty_list_does_nothing() {
    let mut app = three_domains();
    app.mode = Mode::BrowsingLinks;
    app.toggle_select_all();
    assert!(app.selected_links.is_empty());
}

#[test]
fn clear_marks_drops_all_marks() {
    let mut app = three_domains();
    app.selected_files = set(&[0, 2]);
    app.selected_links = set(&[1]);
    app.clear_marks();
    assert!(app.selected_files.is_empty());
    assert!(app.selected_links.is_empty());
}

#[test]
fn save_links_gives_path_and_content() {
    let mut app = three_domains();
    app.load_links("u1\n\nu2\n");
    assert_eq!(
        app.save_links(),
        Some(("/arch/archive_a_com.txt".to_string(), "u1\nu2\n".to_string()))
    );
    let empty = App::new("/arch".to_string(), Vec::new(), Vec::new());
    assert_eq!(empty.save_links(), None);
    assert_eq!(app.file_path(2), "/arch/archive_c_com.txt");
}

#[test]
fn delete_highlighted_link_writes_remaining_links() {
    let mut app = three_domains();
    app.load_links("u1\nu2\nu3\n");
    app.open_links();
    app.next();
    app.next();
    match app.delete_selection() {
        Deletion::WriteLinks { path, content } => {
            assert_eq!(path, "/arch/archive_a_com.txt");
            assert_eq!(content, "u1\nu2\n");
        }
        _ => panic!("expected links to write"),
    }
    assert_eq!(app.links, strings(&["u1", "u2"]));
    assert_eq!(app.link_selected, Some(1));
}

#[test]
fn delete_marked_links() {
    let mut app = three_domains();
    app.load_links("u1\nu2\nu3\nu4\n");
    app.open_links();
    app.selected_links = set(&[0, 2, 9]);
    match app.delete_selection() {
        Deletion::WriteLinks { content, .. } => assert_eq!(content, "u2\nu4\n"),
        _ => panic!("expected links to write"),
    }
    assert_eq!(app.links, strings(&["u2", "u4"]));
    assert!(app.selected_links.is_empty());
    assert_eq!(app.link_selected, Some(0));
}

#[test]
fn delete_every_link_leaves_no_highlight() {
    let mut app = three_domains();
    app.load_links("u1\n");
    app.open_links();
    match app.delete_selection() {
        Deletion::WriteLinks { content, .. } => assert_eq!(content, ""),
        _ => panic!("expected links to write"),
    }
    assert!(app.links.is_empty());
    assert_eq!(app.link_selected, None);
}

#[test]
fn delete_without_highlight_or_marks_does_nothing() {
    let mut app = three_domains();
    app.mode = Mode::BrowsingLinks;
    assert!(matches!(app.delete_selection(), Deletion::Nothing));
    let mut empty = App::new("/arch".to_string(), Vec::new(), Vec::new());
    assert!(matches!(empty.delete_selection(), Deletion::Nothing));
}

#[test]
fn delete_highlighted_file() {
    let mut app = three_domains();
    app.file_selected = Some(2);
    app.selected_links = set(&[0]);
    match app.delete_selection() {
        Deletion::RemoveFiles { paths, reload } => {
            assert_eq!(paths, strings(&["/arch/archive_c_com.txt"]));
            assert!(reload);
        }
        _ => panic!("expected files to remove"),
    }
    assert_eq!(app.files, strings(&["archive_a_com.txt", "archive_b_com.txt"]));
    assert_eq!(app.file_link_counts, vec![2, 0]);
    assert_eq!(app.file_selected, Some(1));
    assert!(app.selected_links.is_empty());
}

#[test]
fn delete_marked_files() {
    let mut app = three_domains();
    app.selected_files = set(&[0, 2]);
    match app.delete_selection() {
        Deletion::RemoveFiles { paths, reload } => {
            assert_eq!(paths, strings(&["/arch/archive_a_com.txt", "/arch/archive_c_com.txt"]));
            assert!(reload);
        }
        _ => panic!("expected files to remove"),
    }
    assert_eq!(app.files, strings(&["archive_b_com.txt"]));
    assert_eq!(app.file_link_counts, vec![0]);
    assert_eq!(app.file_selected, Some(0));
    assert!(app.selected_files.is_empty());
}

#[test]
fn delete_every_file_clears_links() {
    let mut app = three_domains();
    app.load_links("u1\n");
    app.toggle_select_all();
    match app.delete_selection() {
        Deletion::RemoveFiles { paths, reload } => {
            assert_eq!(paths.len(), 3);
            assert!(!reload);
        }
        _ => panic!("expected files to remove"),
    }
    assert!(app.files.is_empty());
    assert_eq!(app.file_selected, None);
    assert!(app.links.is_empty());
    assert_eq!(app.link_selected, None);
}

fn search_app() -> App {
    App::new(
        "/arch".to_string(),
        strings(&["archive_localhost.txt", "archive_example_com.txt"]),
        vec![2, 1],
    )
}

#[test]
fn delete_while_searching_locates_line() {
    let mut app = search_app();
    app.start_search();
    app.search_results = vec![
        SearchHit { domain: "localhost".to_string(), url: "http://localhost/a".to_string() },
        SearchHit { domain: "example.com".to_string(), url: "https://example.com/".to_string() },
    ];
    app.search_selected = Some(0);
    match app.delete_selection() {
        Deletion::RemoveLine { file, path, url } => {
            assert_eq!(file, 0);
            assert_eq!(path, "/arch/archive_localhost.txt");
            assert_eq!(url, "http://localhost/a");
        }
        _ => panic!("expected a line to remove"),
    }
    assert_eq!(app.search_results.len(), 2);
    app.search_selected = Some(1);
    assert!(matches!(app.delete_selection(), Deletion::Nothing));
    app.search_selected = None;
    assert!(matches!(app.delete_selection(), Deletion::Nothing));
}

#[test]
fn finish_line_removal_updates_count_and_results() {
    let mut app = search_app();
    app.start_search();
    app.search_results = vec![
        SearchHit { domain: "localhost".to_string(), url: "http://localhost/a".to_string() },
        SearchHit { domain: "localhost".to_string(), url: "http://localhost/b".to_string() },
    ];
    app.search_selected = Some(1);
    assert!(app.finish_line_removal(0));
    assert_eq!(app.file_link_counts, vec![1, 1]);
    assert_eq!(app.search_results.len(), 1);
    assert_eq!(app.search_results[0].url, "http://localhost/a");
    assert_eq!(app.search_selected, Some(0));
    assert!(!app.finish_line_removal(1));
    assert_eq!(app.file_link_counts, vec![1, 0]);
    assert!(app.search_results.is_empty());
    assert_eq!(app.search_selected, None);
}

#[test]
fn finish_line_removal_never_counts_below_zero() {
    let mut app = search_app();
    app.file_link_counts = vec![0, 0];
    app.search_results = vec![SearchHit { domain: "x".to_string(), url: "y".to_string() }];
    app.search_selected = Some(0);
    app.finish_line_removal(1);
    assert_eq!(app.file_link_counts, vec![0, 0]);
}

#[test]
fn selected_link_and_preview_url() {
    let mut app = three_domains();
    app.load_links("u1\nu2\n");
    assert_eq!(app.selected_link(), Some("u1".to_string()));
    assert_eq!(app.preview_url(), None);
    assert_eq!(app.title_to_fetch(), None);
    app.open_links();
    app.next();
    assert_eq!(app.preview_url(), Some("u2".to_string()));
    app.start_search();
    app.search_results = vec![SearchHit { domain: "d".to_string(), url: "r".to_string() }];
    app.search_selected = Some(0);
    assert_eq!(app.selected_search_url(), Some("r".to_string()));
    assert_eq!(app.preview_url(), Some("r".to_string()));
}

#[test]
fn known_titles_are_not_fetched_again() {
    let mut app = three_domains();
    app.load_links("u1\nu2\n");
    app.open_links();
    assert_eq!(app.title_to_fetch(), Some("u1".to_string()));
    app.record_title("u1".to_string(), "One".to_string());
    assert_eq!(app.title_to_fetch(), None);
    assert_eq!(app.known_title(&"u1".to_string()), Some("One".to_string()));
    assert_eq!(app.known_title(&"u2".to_string()), None);
    app.next();
    assert_eq!(app.title_to_fetch(), Some("u2".to_string()));
}

#[test]
fn later_title_overrides_earlier() {
    let mut app = three_domains();
    app.record_title("u".to_string(), "Old".to_string());
    app.record_title("v".to_string(), "Vee".to_string());
    app.record_title("u".to_string(), "New".to_string());
    assert_eq!(app.known_title(&"u".to_string()), Some("New".to_string()));
    assert_eq!(app.known_title(&"v".to_string()), Some("Vee".to_string()));
    assert_eq!(app.link_titles.len(), 2);
}
