use clippa_rs::manager::{App, Mode, SearchHit};
use clippa_rs::screen::{help_text, search_help_text};
use std::collections::HashSet;

fn strings(v: &[&str]) -> Vec<String> {
    v.iter().map(|s| s.to_string()).collect()
}

fn app() -> App {
    App::new(
        "/arch".to_string(),
        strings(&["archive_www_example_com.txt", "archive_docs_rs.txt"]),
        vec![12, 0],
    )
}

#[test]
fn status_line_shows_position_and_marks() {
    let mut a = app();
    assert_eq!(a.status_text(), " [F] 1/2");
    a.selected_files = [0usize, 1].into_iter().collect::<HashSet<usize>>();
    assert_eq!(a.status_text(), " [F] 1/2  |  Sel: 2");
    a.load_links("u1\nu2\nu3\n");
    a.open_links();
    a.previous();
    assert_eq!(a.status_text(), " [L] 3/3");
    a.start_search();
    assert_eq!(a.status_text(), "");
}

#[test]
fn status_line_without_highlight() {
    let a = App::new("/arch".to_string(), Vec::new(), Vec::new());
    assert_eq!(a.status_text(), " [F] 0/0");
}

#[test]
fn file_label_shows_domain_and_count() {
    let a = app();
    assert_eq!(a.file_label(0), "example.com (12)");
    assert_eq!(a.file_label(1), "docs.rs (0)");
}

#[test]
fn preview_of_file_and_link() {
    let mut a = app();
    assert_eq!(a.preview_text(), "example.com  |  12 links");
    a.load_links("https://example.com/a\n");
    a.open_links();
    assert_eq!(a.preview_text(), "Fetching... https://example.com/a");
    a.record_title("https://example.com/a".to_string(), "Page A".to_string());
    assert_eq!(a.preview_text(), "Page A - https://example.com/a");
    a.start_search();
    assert_eq!(a.preview_text(), "");
}

#[test]
fn help_texts() {
    assert_eq!(
        help_text(Mode::BrowsingFiles),
        " [j/k] Move | [Tab] Next Domain | [Space] Select | [^A] All | [d] Delete | [Enter] Open | [/] Search | [q] Quit "
    );
    assert_eq!(
        help_text(Mode::BrowsingLinks),
        " [j/k] Move | [Tab] Next Domain | [Space] Select | [^A] All | [d] Delete | [Enter] Open URL | [y] Copy URL | [/] Search | [z] Back | [q] Quit "
    );
    assert_eq!(help_text(Mode::Searching), "");
    assert_eq!(help_text(Mode::ViewingImage), "");
    assert_eq!(
        search_help_text(),
        " [j/k] Move | [Enter] Open URL | [y] Copy URL | [d] Delete | [Esc] Back "
    );
}

#[test]
fn search_box_and_result_texts() {
    let mut a = app();
    a.start_search();
    assert_eq!(a.search_prompt(), " Type to fuzzy-search across all archives...");
    assert_eq!(a.search_status_text(), " [S] Type to search");
    assert_eq!(a.search_preview_text(), " Type above to search across all archives");
    a.type_char('r');
    a.type_char('s');
    assert_eq!(a.search_prompt(), " / rs");
    assert_eq!(a.search_preview_text(), " No matches found");
    assert_eq!(a.search_status_text(), " [S] 0 results | \"rs\"");
    a.search_results = vec![SearchHit { domain: "docs.rs".to_string(), url: "https://docs.rs/x".to_string() }];
    a.search_selected = Some(0);
    assert_eq!(a.search_status_text(), " [S] 1 result | \"rs\"");
    assert_eq!(a.results_title(), " Results (1)");
    assert_eq!(a.result_label(0), " docs.rs  https://docs.rs/x");
    assert_eq!(a.search_preview_text(), "docs.rs - https://docs.rs/x");
    a.record_title("https://docs.rs/x".to_string(), "Docs".to_string());
    assert_eq!(a.search_preview_text(), "docs.rs | Docs - https://docs.rs/x");
}
