use todohawk::tui::{handle_event, App, AppMode, Event, KeyCode};
use todohawk::types::{Tag, TodoItem};
use todohawk::view::{
    bottom_hints, detail_lines, detail_placeholder, detail_title, list_header, list_placeholder, list_rows, list_title,
    search_text, tag_labels, top_bar_title,
};

fn item(tag: Tag, message: &str, author: Option<&str>, file: &str, line: usize) -> TodoItem {
    TodoItem {
        tag,
        message: message.to_string(),
        author: author.map(|a| a.to_string()),
        file: file.to_string(),
        line,
        raw_line: format!("// {}: {}", tag.name(), message),
    }
}

fn app() -> App {
    App::new(vec![
        item(Tag::Todo, "Refactor parser", Some("alice"), "src/parser.rs", 3),
        item(Tag::Bug, "Crash", None, "a/very/long/directory/name/that/keeps/going/main.rs", 41),
    ])
}

#[test]
fn list_shows_one_row_per_item() {
    let a = app();
    assert_eq!(list_title(&a), " Results (2) ");
    assert!(list_placeholder(&a).is_none());
    let rows = list_rows(&a);
    assert_eq!(rows.len(), 2);
    assert_eq!(rows[0], vec!["TODO", "src/parser.rs", "3", "alice", "Refactor parser"]);
    let long = "a/very/long/directory/name/that/keeps/going/main.rs";
    let chars: Vec<char> = long.chars().collect();
    let suffix: String = chars[chars.len() - 28..].iter().collect();
    assert_eq!(rows[1], vec!["BUG".to_string(), format!("..{}", suffix), "41".to_string(), "-".to_string(), "Crash".to_string()]);
}

#[test]
fn empty_list_has_placeholder() {
    let mut a = app();
    a.search_query = "zzz".to_string();
    a.apply_filters();
    assert_eq!(list_title(&a), " Results ");
    assert_eq!(list_placeholder(&a), Some("  No matching items.".to_string()));
    assert!(list_rows(&a).is_empty());
    assert!(detail_lines(&a).is_none());
}

#[test]
fn detail_of_selected_item() {
    let mut a = app();
    a.next();
    let lines = detail_lines(&a).unwrap();
    assert_eq!(
        lines,
        vec![
            "Tag:     BUG",
            "File:    a/very/long/directory/name/that/keeps/going/main.rs",
            "Line:    41",
            "Author:  -",
            "",
            "Message: Crash",
            "",
            "Raw:     // BUG: Crash",
        ]
    );
}

#[test]
fn top_bar_labels_and_search() {
    let mut a = app();
    let labels = tag_labels(&a);
    assert_eq!(labels.len(), 8);
    assert_eq!(labels[0], ("[1:TODO]".to_string(), true));
    assert_eq!(labels[7], ("[8:WARN]".to_string(), true));
    a.toggle_tag_filter(Tag::Bug);
    let labels = tag_labels(&a);
    assert_eq!(labels[0], ("[1:TODO]".to_string(), false));
    assert_eq!(labels[6], ("[7:BUG]".to_string(), true));
    assert_eq!(search_text(&a), "");
    handle_event(&mut a, Event::Key { code: KeyCode::Char('/'), press: true });
    handle_event(&mut a, Event::Key { code: KeyCode::Char('c'), press: true });
    assert_eq!(search_text(&a), "/c_");
    handle_event(&mut a, Event::Key { code: KeyCode::Enter, press: true });
    assert_eq!(a.mode, AppMode::Normal);
    assert_eq!(search_text(&a), " search: \"c\"");
}

#[test]
fn bottom_bar_hints() {
    assert_eq!(bottom_hints(AppMode::Normal), " j/k: navigate  Enter: detail  /: search  1-8: filter  c: clear  q: quit");
    assert_eq!(bottom_hints(AppMode::Search), " Type to search  Enter/Esc: exit search  Backspace: delete");
    assert_eq!(bottom_hints(AppMode::Detail), " Esc/Enter: back  j/k: prev/next  q: quit");
}

#[test]
fn fixed_texts_of_the_views() {
    assert_eq!(list_header(), vec!["Tag", "File", "Line", "Author", "Message"]);
    assert_eq!(detail_title(), " Detail ");
    assert_eq!(top_bar_title(), " todohawk ");
    let mut a = app();
    assert!(detail_placeholder(&a).is_none());
    a.search_query = "nothing here".to_string();
    a.apply_filters();
    assert_eq!(detail_placeholder(&a), Some("  No item selected.".to_string()));
}
