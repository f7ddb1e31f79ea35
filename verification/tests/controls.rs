use clippa_rs::controls::{command_for, Command, Key, KeyCode};
use clippa_rs::manager::{App, Mode};

fn key(code: KeyCode) -> Key {
    Key { code, ctrl: false }
}

fn ch(c: char) -> Key {
    key(KeyCode::Char(c))
}

#[test]
fn browsing_keys() {
    let m = Mode::BrowsingFiles;
    assert_eq!(command_for(m, ch('q'), false), Command::Quit);
    assert_eq!(command_for(m, ch('j'), false), Command::Next);
    assert_eq!(command_for(m, key(KeyCode::Down), false), Command::Next);
    assert_eq!(command_for(m, ch('k'), false), Command::Previous);
    assert_eq!(command_for(m, key(KeyCode::Up), false), Command::Previous);
    assert_eq!(command_for(m, ch(' '), false), Command::Toggle);
    assert_eq!(command_for(m, key(KeyCode::Esc), false), Command::ClearMarks);
    assert_eq!(command_for(m, key(KeyCode::Enter), false), Command::OpenLinks);
    assert_eq!(command_for(m, key(KeyCode::Tab), false), Command::NextDomain);
    assert_eq!(command_for(m, key(KeyCode::BackTab), false), Command::PrevDomain);
    assert_eq!(command_for(m, ch('d'), false), Command::Delete);
    assert_eq!(command_for(m, key(KeyCode::Delete), false), Command::Delete);
    assert_eq!(command_for(m, ch('/'), false), Command::StartSearch);
    assert_eq!(command_for(m, ch('x'), false), Command::Ignore);
    assert_eq!(command_for(m, key(KeyCode::Backspace), false), Command::Ignore);
}

#[test]
fn control_a_marks_all() {
    let m = Mode::BrowsingLinks;
    assert_eq!(command_for(m, Key { code: KeyCode::Char('a'), ctrl: true }, false), Command::ToggleAll);
    assert_eq!(command_for(m, ch('a'), false), Command::Ignore);
}

#[test]
fn link_only_keys() {
    let l = Mode::BrowsingLinks;
    let f = Mode::BrowsingFiles;
    assert_eq!(command_for(l, key(KeyCode::Enter), false), Command::OpenLink);
    assert_eq!(command_for(l, ch('y'), false), Command::CopyLink);
    assert_eq!(command_for(f, ch('y'), false), Command::Ignore);
    assert_eq!(command_for(l, ch('z'), false), Command::BackToFiles);
    assert_eq!(command_for(f, ch('z'), false), Command::Ignore);
    assert_eq!(command_for(l, ch('v'), true), Command::ViewImage);
    assert_eq!(command_for(l, ch('v'), false), Command::Ignore);
    assert_eq!(command_for(f, ch('v'), true), Command::Ignore);
}

#[test]
fn search_keys() {
    let s = Mode::Searching;
    assert_eq!(command_for(s, key(KeyCode::Esc), false), Command::EndSearch);
    assert_eq!(command_for(s, ch('j'), false), Command::Next);
    assert_eq!(command_for(s, key(KeyCode::Up), false), Command::Previous);
    assert_eq!(command_for(s, key(KeyCode::Enter), false), Command::OpenResult);
    assert_eq!(command_for(s, ch('y'), false), Command::CopyResult);
    assert_eq!(command_for(s, ch('d'), false), Command::DeleteResult);
    assert_eq!(command_for(s, key(KeyCode::Delete), false), Command::DeleteResult);
    assert_eq!(command_for(s, ch('v'), false), Command::ViewResultImage);
    assert_eq!(command_for(s, key(KeyCode::Backspace), false), Command::Erase);
    assert_eq!(command_for(s, ch('q'), false), Command::Type('q'));
    assert_eq!(command_for(s, ch('/'), false), Command::Type('/'));
    assert_eq!(command_for(s, ch('\u{7f}'), false), Command::Ignore);
    assert_eq!(command_for(s, key(KeyCode::Tab), false), Command::Ignore);
}

#[test]
fn any_key_leaves_image_view() {
    let v = Mode::ViewingImage;
    assert_eq!(command_for(v, ch('q'), false), Command::LeaveImage);
    assert_eq!(command_for(v, key(KeyCode::Other), false), Command::LeaveImage);
}

#[test]
fn image_view_returns_to_previous_mode() {
    let mut app = App::new("/a".to_string(), vec!["archive_x.txt".to_string()], vec![0]);
    app.load_links("u\n");
    app.open_links();
    app.show_image();
    assert_eq!(app.mode, Mode::ViewingImage);
    assert_eq!(app.prev_mode, Mode::BrowsingLinks);
    app.leave_image();
    assert_eq!(app.mode, Mode::BrowsingLinks);
}

#[test]
fn search_typing_and_erasing() {
    let mut app = App::new("/a".to_string(), Vec::new(), Vec::new());
    app.start_search();
    assert_eq!(app.mode, Mode::Searching);
    assert_eq!(app.prev_mode, Mode::BrowsingFiles);
    app.type_char('a');
    app.type_char('é');
    assert_eq!(app.search_query, "aé");
    app.erase_char();
    assert_eq!(app.search_query, "a");
    app.erase_char();
    app.erase_char();
    assert_eq!(app.search_query, "");
    app.type_char('z');
    app.end_search();
    assert_eq!(app.search_query, "");
    assert_eq!(app.mode, Mode::BrowsingFiles);
}

#[test]
fn quit_stops_manager() {
    let mut app = App::new("/a".to_string(), Vec::new(), Vec::new());
    app.quit();
    assert!(app.should_quit);
}
