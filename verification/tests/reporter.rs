use todohawk::reporter::{render_table, report, retain_tags};
use todohawk::types::{OutputFormat, Tag, TodoItem};

fn sample_items() -> Vec<TodoItem> {
    vec![
        TodoItem {
            tag: Tag::Todo,
            message: "Refactor this function".to_string(),
            author: Some("alice".to_string()),
            file: "src/main.rs".to_string(),
            line: 10,
            raw_line: "// TODO(alice): Refactor this function".to_string(),
        },
        TodoItem {
            tag: Tag::Fixme,
            message: "Handle error case".to_string(),
            author: None,
            file: "src/main.rs".to_string(),
            line: 25,
            raw_line: "// FIXME: Handle error case".to_string(),
        },
        TodoItem {
            tag: Tag::Hack,
            message: "Temporary workaround".to_string(),
            author: Some("bob".to_string()),
            file: "src/lib.rs".to_string(),
            line: 42,
            raw_line: "// HACK(bob): Temporary workaround".to_string(),
        },
    ]
}

fn item(tag: Tag, message: &str, author: Option<&str>, file: &str, line: usize) -> TodoItem {
    TodoItem {
        tag,
        message: message.to_string(),
        author: author.map(|a| a.to_string()),
        file: file.to_string(),
        line,
        raw_line: String::new(),
    }
}

/// Removes the escape sequences that colour a text.
fn strip_colours(s: &str) -> String {
    let mut out = String::new();
    let mut chars = s.chars();
    while let Some(c) = chars.next() {
        if c == '\x1b' {
            for d in chars.by_ref() {
                if d == 'm' {
                    break;
                }
            }
        } else {
            out.push(c);
        }
    }
    out
}

#[test]
fn test_table_format_contains_items() {
    let items = sample_items();
    let output = report(&items, &OutputFormat::Table).unwrap();
    assert!(output.contains("Refactor this function"));
    assert!(output.contains("Handle error case"));
    assert!(output.contains("Temporary workaround"));
    assert!(output.contains("alice"));
    assert!(output.contains("bob"));
}

#[test]
fn test_table_empty() {
    let output = report(&[], &OutputFormat::Table).unwrap();
    assert_eq!(output, "No TODO items found.");
}

#[test]
fn test_markdown_format() {
    let items = sample_items();
    let output = report(&items, &OutputFormat::Markdown).unwrap();
    assert!(output.starts_with("# TODO Items"));
    assert!(output.contains("## `src/main.rs`"));
    assert!(output.contains("## `src/lib.rs`"));
    assert!(output.contains("- **TODO** (alice) (line 10): Refactor this function"));
    assert!(output.contains("- **FIXME** (line 25): Handle error case"));
    assert!(output.contains("- **HACK** (bob) (line 42): Temporary workaround"));
}

#[test]
fn test_markdown_empty() {
    let output = report(&[], &OutputFormat::Markdown).unwrap();
    assert_eq!(output, "No TODO items found.");
}

#[test]
fn test_summary_format() {
    let items = sample_items();
    let output = report(&items, &OutputFormat::Summary).unwrap();
    assert!(output.contains("FIXME: 1"));
    assert!(output.contains("HACK: 1"));
    assert!(output.contains("TODO: 1"));
    assert!(output.contains("Total: 3"));
}

#[test]
fn test_summary_empty() {
    let output = report(&[], &OutputFormat::Summary).unwrap();
    assert_eq!(output, "No TODO items found.");
}

#[test]
fn test_summary_multiple_same_tag() {
    let items = vec![
        TodoItem {
            tag: Tag::Todo,
            message: "first".to_string(),
            author: None,
            file: "a.rs".to_string(),
            line: 1,
            raw_line: "// TODO: first".to_string(),
        },
        TodoItem {
            tag: Tag::Todo,
            message: "second".to_string(),
            author: None,
            file: "b.rs".to_string(),
            line: 2,
            raw_line: "// TODO: second".to_string(),
        },
    ];
    let output = report(&items, &OutputFormat::Summary).unwrap();
    assert!(output.contains("TODO: 2"));
    assert!(output.contains("Total: 2"));
}

// --- Further cases ---

#[test]
fn summary_is_exact_and_sorted_by_tag_name() {
    let output = report(&sample_items(), &OutputFormat::Summary).unwrap();
    assert_eq!(output, "FIXME: 1, HACK: 1, TODO: 1\nTotal: 3");
    let items = vec![
        item(Tag::Xxx, "a", None, "f", 1),
        item(Tag::Bug, "b", None, "f", 2),
        item(Tag::Warn, "c", None, "f", 3),
        item(Tag::Bug, "d", None, "f", 4),
        item(Tag::Optimize, "e", None, "f", 5),
        item(Tag::Note, "g", None, "f", 6),
    ];
    let output = report(&items, &OutputFormat::Summary).unwrap();
    assert_eq!(output, "BUG: 2, NOTE: 1, OPTIMIZE: 1, WARN: 1, XXX: 1\nTotal: 6");
}

#[test]
fn markdown_is_exact_and_grouped_by_sorted_file() {
    let output = report(&sample_items(), &OutputFormat::Markdown).unwrap();
    assert_eq!(
        output,
        "# TODO Items\n\n## `src/lib.rs`\n\n- **HACK** (bob) (line 42): Temporary workaround\n\n## `src/main.rs`\n\n- **TODO** (alice) (line 10): Refactor this function\n- **FIXME** (line 25): Handle error case"
    );
}

#[test]
fn markdown_orders_files_by_code_point() {
    let items = vec![
        item(Tag::Note, "z", None, "b.rs", 3),
        item(Tag::Note, "y", None, "B.rs", 2),
        item(Tag::Note, "x", None, "a.rs", 1),
        item(Tag::Note, "w", None, "b.rs", 100),
    ];
    let output = report(&items, &OutputFormat::Markdown).unwrap();
    assert_eq!(
        output,
        "# TODO Items\n\n## `B.rs`\n\n- **NOTE** (line 2): y\n\n## `a.rs`\n\n- **NOTE** (line 1): x\n\n## `b.rs`\n\n- **NOTE** (line 3): z\n- **NOTE** (line 100): w"
    );
}

#[test]
fn json_is_not_composed_as_text() {
    assert!(report(&sample_items(), &OutputFormat::Json).is_none());
}

#[test]
fn table_rows_are_padded() {
    let output = report(&sample_items(), &OutputFormat::Table).unwrap();
    let plain = strip_colours(&output);
    let lines: Vec<&str> = plain.lines().collect();
    assert_eq!(lines.len(), 4);
    assert_eq!(
        lines[0],
        format!("{:<40} {:<6} {:<10} {:<12} {}", "File", "Line", "Tag", "Author", "Message")
    );
    assert_eq!(
        lines[1],
        format!("{:<40} {:<6} {:<10} {:<12} {}", "src/main.rs", 10, "TODO", "alice", "Refactor this function")
    );
    assert_eq!(
        lines[2],
        format!("{:<40} {:<6} {:<10} {:<12} {}", "src/main.rs", 25, "FIXME", "-", "Handle error case")
    );
}

#[test]
fn render_table_uses_given_cells() {
    let items = sample_items();
    let heading: Vec<char> = "H".chars().collect();
    let cells = vec!["<t>".to_string(), "<f>".to_string(), "<h>".to_string()];
    let out = render_table(&items, &heading, &cells);
    let expected = format!(
        "H\n{:<40} {:<6} {:<10} {:<12} {}\n{:<40} {:<6} {:<10} {:<12} {}\n{:<40} {:<6} {:<10} {:<12} {}",
        "src/main.rs", 10, "<t>", "alice", "Refactor this function",
        "src/main.rs", 25, "<f>", "-", "Handle error case",
        "src/lib.rs", 42, "<h>", "bob", "Temporary workaround"
    );
    assert_eq!(out, expected);
}

#[test]
fn table_shortens_long_paths() {
    let long = "some/very/long/directory/structure/that/goes/on/file.rs";
    let items = vec![item(Tag::Todo, "m", None, long, 7)];
    let out = render_table(&items, &['H'], &["T".to_string()]);
    let shown = format!("..{}", &long[long.len() - 38..]);
    assert_eq!(out, format!("H\n{:<40} {:<6} {:<10} {:<12} {}", shown, 7, "T", "-", "m"));
    // A path of exactly 38 bytes is shown whole.
    let exact = "a".repeat(38);
    let items = vec![item(Tag::Todo, "m", None, &exact, 1)];
    let out = render_table(&items, &['H'], &["T".to_string()]);
    assert_eq!(out, format!("H\n{:<40} {:<6} {:<10} {:<12} {}", exact, 1, "T", "-", "m"));
}

#[test]
fn table_shortens_by_bytes() {
    // 20 two-byte characters: 40 bytes, cut 38 bytes from the end.
    let path = "é".repeat(20);
    let items = vec![item(Tag::Todo, "m", None, &path, 1)];
    let out = render_table(&items, &['H'], &["T".to_string()]);
    let shown = format!("..{}", "é".repeat(19));
    assert_eq!(out, format!("H\n{:<40} {:<6} {:<10} {:<12} {}", shown, 1, "T", "-", "m"));
}

#[test]
fn table_tag_cells_show_tag_names() {
    let items = vec![
        item(Tag::Warn, "a", None, "f", 1),
        item(Tag::Optimize, "b", None, "f", 2),
        item(Tag::Bug, "c", None, "f", 3),
    ];
    let plain = strip_colours(&report(&items, &OutputFormat::Table).unwrap());
    let lines: Vec<&str> = plain.lines().collect();
    assert!(lines[1].contains(" WARN "));
    assert!(lines[2].contains(" OPTIMIZE "));
    assert!(lines[3].contains(" BUG "));
}

#[test]
fn retain_tags_keeps_requested_tags_in_order() {
    let items = sample_items();
    let kept = retain_tags(items, &vec!["hack".to_string(), "Todo".to_string()]);
    assert_eq!(kept.len(), 2);
    assert_eq!(kept[0].tag, Tag::Todo);
    assert_eq!(kept[1].tag, Tag::Hack);
    let all = retain_tags(sample_items(), &vec![]);
    assert_eq!(all.len(), 3);
    let none = retain_tags(sample_items(), &vec!["bug".to_string()]);
    assert!(none.is_empty());
}
