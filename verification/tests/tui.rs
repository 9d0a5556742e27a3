use todohawk::tui::{handle_event, tag_from_key, Action, App, AppMode, Event, KeyCode};
use todohawk::types::{Tag, TodoItem};

fn item(tag: Tag, message: &str, author: Option<&str>, file: &str) -> TodoItem {
    TodoItem {
        tag,
        message: message.to_string(),
        author: author.map(|a| a.to_string()),
        file: file.to_string(),
        line: 1,
        raw_line: String::new(),
    }
}

fn app() -> App {
    App::new(vec![
        item(Tag::Todo, "Refactor parser", Some("alice"), "src/parser.rs"),
        item(Tag::Fixme, "Crash on empty input", None, "src/main.rs"),
        item(Tag::Todo, "Write docs", Some("Bob"), "README.md"),
        item(Tag::Note, "Keep in sync", None, "src/lib.rs"),
    ])
}

fn key(c: char) -> Event {
    Event::Key { code: KeyCode::Char(c), press: true }
}

fn code(k: KeyCode) -> Event {
    Event::Key { code: k, press: true }
}

#[test]
fn new_shows_everything() {
    let a = app();
    assert_eq!(a.filtered_items, vec![0, 1, 2, 3]);
    assert_eq!(a.selected, 0);
    assert_eq!(a.mode, AppMode::Normal);
    assert!(a.active_tag_filters.is_empty());
}

#[test]
fn next_and_previous_wrap() {
    let mut a = app();
    a.previous();
    assert_eq!(a.selected, 3);
    a.next();
    assert_eq!(a.selected, 0);
    a.next();
    a.next();
    assert_eq!(a.selected, 2);
    a.previous();
    assert_eq!(a.selected, 1);
    let mut empty = App::new(vec![]);
    empty.next();
    empty.previous();
    assert_eq!(empty.selected, 0);
    assert!(empty.selected_item().is_none());
}

#[test]
fn tag_filter_toggles() {
    let mut a = app();
    a.selected = 3;
    a.toggle_tag_filter(Tag::Todo);
    assert_eq!(a.filtered_items, vec![0, 2]);
    assert_eq!(a.selected, 1);
    a.toggle_tag_filter(Tag::Note);
    assert_eq!(a.filtered_items, vec![0, 2, 3]);
    a.toggle_tag_filter(Tag::Todo);
    assert_eq!(a.filtered_items, vec![3]);
    assert_eq!(a.selected, 0);
    a.toggle_tag_filter(Tag::Note);
    assert_eq!(a.filtered_items, vec![0, 1, 2, 3]);
}

#[test]
fn search_is_case_insensitive_over_message_file_and_author() {
    let mut a = app();
    a.search_query = "BOB".to_string();
    a.apply_filters();
    assert_eq!(a.filtered_items, vec![2]);
    a.search_query = "src".to_string();
    a.apply_filters();
    assert_eq!(a.filtered_items, vec![0, 1, 3]);
    a.search_query = "CRASH".to_string();
    a.apply_filters();
    assert_eq!(a.filtered_items, vec![1]);
    a.search_query = "nothing like this".to_string();
    a.apply_filters();
    assert!(a.filtered_items.is_empty());
    assert_eq!(a.selected, 0);
    assert!(a.selected_item().is_none());
}

#[test]
fn selected_item_follows_filter() {
    let mut a = app();
    a.toggle_tag_filter(Tag::Fixme);
    assert_eq!(a.selected_item().unwrap().message, "Crash on empty input");
}

#[test]
fn keys_in_normal_mode() {
    let mut a = app();
    assert_eq!(handle_event(&mut a, key('j')), Action::Continue);
    assert_eq!(a.selected, 1);
    assert_eq!(handle_event(&mut a, code(KeyCode::Up)), Action::Continue);
    assert_eq!(a.selected, 0);
    handle_event(&mut a, key('1'));
    assert_eq!(a.filtered_items, vec![0, 2]);
    handle_event(&mut a, key('c'));
    assert_eq!(a.filtered_items, vec![0, 1, 2, 3]);
    handle_event(&mut a, code(KeyCode::Enter));
    assert_eq!(a.mode, AppMode::Detail);
    assert_eq!(handle_event(&mut a, key('q')), Action::Quit);
}

#[test]
fn keys_in_search_mode() {
    let mut a = app();
    handle_event(&mut a, key('/'));
    assert_eq!(a.mode, AppMode::Search);
    handle_event(&mut a, key('d'));
    handle_event(&mut a, key('o'));
    handle_event(&mut a, key('c'));
    assert_eq!(a.search_query, "doc");
    assert_eq!(a.filtered_items, vec![2]);
    handle_event(&mut a, code(KeyCode::Backspace));
    assert_eq!(a.search_query, "do");
    // `q` is typed into the query while searching.
    assert_eq!(handle_event(&mut a, key('q')), Action::Continue);
    assert_eq!(a.search_query, "doq");
    handle_event(&mut a, code(KeyCode::Esc));
    assert_eq!(a.mode, AppMode::Normal);
    assert_eq!(handle_event(&mut a, code(KeyCode::Esc)), Action::Quit);
}

#[test]
fn released_keys_and_other_events_do_nothing() {
    let mut a = app();
    let released = Event::Key { code: KeyCode::Char('q'), press: false };
    assert_eq!(handle_event(&mut a, released), Action::Continue);
    assert_eq!(handle_event(&mut a, Event::Other), Action::Continue);
    assert_eq!(a.selected, 0);
    assert_eq!(a.mode, AppMode::Normal);
}

#[test]
fn digit_keys_name_tags_in_order() {
    let all = Tag::all();
    for (i, c) in ['1', '2', '3', '4', '5', '6', '7', '8'].iter().enumerate() {
        assert_eq!(tag_from_key(*c), Some(all[i]));
    }
    assert_eq!(tag_from_key('0'), None);
    assert_eq!(tag_from_key('9'), None);
    assert_eq!(tag_from_key('a'), None);
}

#[test]
fn every_key_keeps_the_browser_consistent() {
    let keys = [
        key('j'), key('k'), key('1'), key('2'), key('5'), key('/'), key('o'), key('x'),
        code(KeyCode::Backspace), code(KeyCode::Enter), key('c'), code(KeyCode::Down),
        code(KeyCode::Up), key('3'), code(KeyCode::Enter), key('j'), code(KeyCode::Esc), key('8'),
    ];
    let mut a = app();
    for (n, e) in keys.iter().enumerate() {
        handle_event(&mut a, *e);
        let mut fresh = App::new(a.items.clone());
        fresh.active_tag_filters = a.active_tag_filters.clone();
        fresh.search_query = a.search_query.clone();
        fresh.apply_filters();
        assert_eq!(a.filtered_items, fresh.filtered_items, "after key {}", n);
        if a.filtered_items.is_empty() {
            assert_eq!(a.selected, 0);
        } else {
            assert!(a.selected < a.filtered_items.len());
        }
    }
}

#[test]
fn narrower_filter_never_shows_more() {
    let base = app();
    let mut wide = App::new(base.items.clone());
    wide.search_query = "r".to_string();
    wide.apply_filters();
    let mut narrow = App::new(base.items.clone());
    narrow.search_query = "ReF".to_string();
    narrow.toggle_tag_filter(Tag::Todo);
    for i in &narrow.filtered_items {
        assert!(wide.filtered_items.contains(i));
    }
    assert_eq!(narrow.filtered_items, vec![0]);
}

#[test]
fn typing_then_deleting_restores_rows() {
    let mut a = app();
    handle_event(&mut a, key('/'));
    handle_event(&mut a, key('b'));
    let rows = a.filtered_items.clone();
    let query = a.search_query.clone();
    handle_event(&mut a, key('q'));
    assert_eq!(a.search_query, "bq");
    handle_event(&mut a, code(KeyCode::Backspace));
    assert_eq!(a.search_query, query);
    assert_eq!(a.filtered_items, rows);
    assert_eq!(a.mode, AppMode::Search);
}
