use clippa_rs::controls::{Key, KeyCode};
use clippa_rs::viewer::{command_for, help_text, App, Command, Mode};

fn strings(v: &[&str]) -> Vec<String> {
    v.iter().map(|s| s.to_string()).collect()
}

fn viewer() -> App {
    App::new("/arch".to_string(), strings(&["archive_a_com.txt", "archive_b_com.txt"]))
}

fn ch(c: char) -> Key {
    Key { code: KeyCode::Char(c), ctrl: false }
}

#[test]
fn viewer_starts_on_first_file() {
    let v = viewer();
    assert_eq!(v.file_selected, Some(0));
    assert_eq!(v.mode, Mode::BrowsingFiles);
    assert_eq!(App::new("/arch".to_string(), Vec::new()).file_selected, None);
}

#[test]
fn viewer_moves_and_wraps() {
    let mut v = viewer();
    assert!(v.next());
    assert_eq!(v.file_selected, Some(1));
    assert!(v.next());
    assert_eq!(v.file_selected, Some(0));
    assert!(v.previous());
    assert_eq!(v.file_selected, Some(1));
    v.load_links("u1\nu2\n");
    v.open_links();
    assert_eq!(v.mode, Mode::BrowsingLinks);
    assert!(!v.previous());
    assert_eq!(v.link_selected, Some(1));
    assert!(!v.next());
    assert_eq!(v.link_selected, Some(0));
    v.back_to_files();
    assert_eq!(v.mode, Mode::BrowsingFiles);
}

#[test]
fn viewer_load_links_clamps_highlight() {
    let mut v = viewer();
    v.load_links("u1\n\nu2\nu3\n");
    assert_eq!(v.links, strings(&["u1", "u2", "u3"]));
    assert_eq!(v.link_selected, Some(0));
    v.link_selected = Some(2);
    v.load_links("u1\n");
    assert_eq!(v.link_selected, Some(0));
    v.load_links("");
    assert_eq!(v.link_selected, None);
    v.open_links();
    assert_eq!(v.mode, Mode::BrowsingFiles);
}

#[test]
fn viewer_delete_link_gives_file_to_write() {
    let mut v = viewer();
    v.load_links("u1\nu2\nu3\n");
    assert_eq!(v.delete_link(), None);
    v.open_links();
    v.next();
    let (path, content) = v.delete_link().unwrap();
    assert_eq!(path, "/arch/archive_a_com.txt");
    assert_eq!(content, "u1\nu3\n");
    assert_eq!(v.links, strings(&["u1", "u3"]));
    v.load_links(&content);
    assert_eq!(v.links, strings(&["u1", "u3"]));
    assert_eq!(v.link_selected, Some(1));
}

#[test]
fn viewer_save_links() {
    let mut v = viewer();
    v.load_links("a\nb\n");
    assert_eq!(v.save_links(), Some(("/arch/archive_a_com.txt".to_string(), "a\nb\n".to_string())));
    assert_eq!(v.file_path(1), "/arch/archive_b_com.txt");
}

#[test]
fn viewer_keys() {
    let f = Mode::BrowsingFiles;
    let l = Mode::BrowsingLinks;
    assert_eq!(command_for(f, ch('q')), Command::Quit);
    assert_eq!(command_for(f, ch('j')), Command::Next);
    assert_eq!(command_for(l, Key { code: KeyCode::Up, ctrl: false }), Command::Previous);
    assert_eq!(command_for(f, ch('l')), Command::OpenLinks);
    assert_eq!(command_for(f, Key { code: KeyCode::Enter, ctrl: false }), Command::OpenLinks);
    assert_eq!(command_for(l, ch('l')), Command::Ignore);
    assert_eq!(command_for(l, ch('h')), Command::BackToFiles);
    assert_eq!(command_for(l, Key { code: KeyCode::Esc, ctrl: false }), Command::BackToFiles);
    assert_eq!(command_for(f, Key { code: KeyCode::Esc, ctrl: false }), Command::Ignore);
    assert_eq!(command_for(f, ch('x')), Command::DeleteLink);
    assert_eq!(command_for(l, Key { code: KeyCode::Delete, ctrl: false }), Command::DeleteLink);
    assert_eq!(command_for(l, ch('z')), Command::Ignore);
}

#[test]
fn viewer_help() {
    assert_eq!(help_text(Mode::BrowsingFiles), " [j/k] Move | [Enter] Open Domain | [q] Quit ");
    assert_eq!(help_text(Mode::BrowsingLinks), " [j/k] Move | [x] Delete Link | [Esc] Back ");
}

#[test]
fn viewer_quit() {
    let mut v = viewer();
    v.quit();
    assert!(v.should_quit);
}
