use clippa_rs::manager::{App, Mode};
use clippa_rs::search::link_counts;
use fuzzy_matcher::skim::SkimMatcherV2;
use fuzzy_matcher::FuzzyMatcher;

fn strings(v: &[&str]) -> Vec<String> {
    v.iter().map(|s| s.to_string()).collect()
}

fn archive() -> (App, Vec<Option<String>>) {
    let app = App::new(
        "/arch".to_string(),
        strings(&["archive_www_rust-lang_org.txt", "archive_example_com.txt", "archive_blog_org.txt"]),
        vec![3, 0, 1],
    );
    let contents = vec![
        Some(
            "https://www.rust-lang.org/learn\n\n  https://doc.rust-lang.org/book  \nhttps://example.com/\n"
                .to_string(),
        ),
        None,
        Some("https://blog.org/rusty-trust\nhttps://blog.org/other\n".to_string()),
    ];
    (app, contents)
}

fn expected_hits(app: &App, contents: &[Option<String>], query: &str) -> Vec<(String, String)> {
    let matcher = SkimMatcherV2::default();
    let mut scored: Vec<(i64, String, String)> = Vec::new();
    for (i, c) in contents.iter().enumerate() {
        let domain = clippa_rs::domain::domain_name(&app.files[i]);
        if let Some(c) = c {
            for line in c.lines() {
                let line = line.trim();
                if line.is_empty() {
                    continue;
                }
                if let Some(s) = matcher.fuzzy_match(line, query) {
                    scored.push((s, domain.clone(), line.to_string()));
                }
            }
        }
    }
    scored.sort_by(|a, b| b.0.cmp(&a.0));
    scored.into_iter().map(|(_, d, u)| (d, u)).collect()
}

fn hits(app: &App) -> Vec<(String, String)> {
    app.search_results.iter().map(|h| (h.domain.clone(), h.url.clone())).collect()
}

#[test]
fn search_finds_matches_best_first() {
    let (mut app, contents) = archive();
    app.start_search();
    app.search_global("rust", &contents);
    let want = expected_hits(&app, &contents, "rust");
    assert_eq!(hits(&app), want);
    assert!(want.len() >= 3);
    assert_eq!(app.search_selected, Some(0));
    let urls: Vec<&str> = app.search_results.iter().map(|h| h.url.as_str()).collect();
    assert!(urls.contains(&"https://doc.rust-lang.org/book"));
    assert!(urls.contains(&"https://blog.org/rusty-trust"));
    assert!(!urls.contains(&"https://blog.org/other"));
    assert!(!urls.contains(&"https://example.com/"));
}

#[test]
fn search_results_carry_shown_domain() {
    let (mut app, contents) = archive();
    app.search_global("learn", &contents);
    assert_eq!(
        hits(&app),
        vec![("rust-lang.org".to_string(), "https://www.rust-lang.org/learn".to_string())]
    );
}

#[test]
fn search_scores_descend() {
    let (mut app, contents) = archive();
    app.search_global("org", &contents);
    let matcher = SkimMatcherV2::default();
    let scores: Vec<i64> = app
        .search_results
        .iter()
        .map(|h| matcher.fuzzy_match(&h.url, "org").unwrap())
        .collect();
    assert!(scores.windows(2).all(|w| w[0] >= w[1]));
    assert_eq!(hits(&app), expected_hits(&app, &contents, "org"));
}

#[test]
fn empty_query_clears_results_and_highlight() {
    let (mut app, contents) = archive();
    app.search_global("rust", &contents);
    app.search_global("", &contents);
    assert!(app.search_results.is_empty());
    assert_eq!(app.search_selected, None);
}

#[test]
fn query_without_matches_keeps_highlight() {
    let (mut app, contents) = archive();
    app.search_global("rust", &contents);
    app.search_selected = Some(1);
    app.search_global("qqqqzzzz", &contents);
    assert!(app.search_results.is_empty());
    assert_eq!(app.search_selected, Some(1));
}

#[test]
fn search_leaves_browsing_state_alone() {
    let (mut app, contents) = archive();
    app.load_links(contents[0].as_deref().unwrap());
    app.start_search();
    app.type_char('r');
    let q = app.search_query.clone();
    app.search_global(&q, &contents);
    assert_eq!(app.mode, Mode::Searching);
    assert_eq!(app.search_query, "r");
    assert_eq!(app.file_selected, Some(0));
    assert_eq!(app.links.len(), 3);
}

#[test]
fn link_counts_count_non_empty_lines() {
    let (_, contents) = archive();
    assert_eq!(link_counts(&contents), vec![3, 0, 2]);
    assert!(link_counts(&Vec::new()).is_empty());
}
