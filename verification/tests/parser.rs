use todohawk::parser::{parse_line, parse_tag};
use todohawk::types::{Tag, TodoItem};

fn p(line: &str) -> Option<TodoItem> {
    parse_line(line, "test.rs", 1)
}

// --- Basic comment styles ---

#[test]
fn double_slash_todo() {
    let item = p("// TODO: fix this").unwrap();
    assert_eq!(item.tag, Tag::Todo);
    assert_eq!(item.message, "fix this");
    assert!(item.author.is_none());
}

#[test]
fn hash_fixme() {
    let item = p("# FIXME: broken logic").unwrap();
    assert_eq!(item.tag, Tag::Fixme);
    assert_eq!(item.message, "broken logic");
}

#[test]
fn block_comment_hack() {
    let item = p("/* HACK: workaround for bug */").unwrap();
    assert_eq!(item.tag, Tag::Hack);
    assert_eq!(item.message, "workaround for bug");
}

#[test]
fn html_comment_note() {
    let item = p("<!-- NOTE: deprecated section -->").unwrap();
    assert_eq!(item.tag, Tag::Note);
    assert_eq!(item.message, "deprecated section");
}

// --- Author syntax ---

#[test]
fn todo_with_author() {
    let item = p("// TODO(alice): refactor this").unwrap();
    assert_eq!(item.tag, Tag::Todo);
    assert_eq!(item.author, Some("alice".to_string()));
    assert_eq!(item.message, "refactor this");
}

#[test]
fn fixme_with_author_hash() {
    let item = p("# FIXME(bob): memory leak").unwrap();
    assert_eq!(item.tag, Tag::Fixme);
    assert_eq!(item.author, Some("bob".to_string()));
    assert_eq!(item.message, "memory leak");
}

// --- All tag types ---

#[test]
fn all_tags_recognized() {
    let tags = [
        ("TODO", Tag::Todo),
        ("FIXME", Tag::Fixme),
        ("HACK", Tag::Hack),
        ("XXX", Tag::Xxx),
        ("NOTE", Tag::Note),
        ("OPTIMIZE", Tag::Optimize),
        ("BUG", Tag::Bug),
        ("WARN", Tag::Warn),
    ];
    for (name, expected) in tags {
        let line = format!("// {}: test message", name);
        let item = p(&line).unwrap_or_else(|| panic!("should match tag {}", name));
        assert_eq!(item.tag, expected);
        assert_eq!(item.message, "test message");
    }
}

// --- Edge cases ---

#[test]
fn no_match_returns_none() {
    assert!(p("let x = 42;").is_none());
    assert!(p("// just a comment").is_none());
    assert!(p("").is_none());
}

#[test]
fn tag_without_colon() {
    let item = p("// TODO fix without colon").unwrap();
    assert_eq!(item.tag, Tag::Todo);
    assert_eq!(item.message, "fix without colon");
}

#[test]
fn leading_whitespace() {
    let item = p("    // TODO: indented").unwrap();
    assert_eq!(item.tag, Tag::Todo);
    assert_eq!(item.message, "indented");
}

#[test]
fn empty_message() {
    let item = p("// TODO:").unwrap();
    assert_eq!(item.tag, Tag::Todo);
    assert_eq!(item.message, "");
}

#[test]
fn empty_author_parens_treated_as_no_author() {
    let item = p("// TODO(): message").unwrap();
    assert_eq!(item.tag, Tag::Todo);
    assert!(item.author.is_none());
    assert_eq!(item.message, "message");
}

#[test]
fn file_and_line_are_recorded() {
    let file = "src/main.rs";
    let item = parse_line("// TODO: check", file, 42).unwrap();
    assert_eq!(item.file, file);
    assert_eq!(item.line, 42);
}

#[test]
fn raw_line_preserved() {
    let line = "  // TODO(alice): do stuff";
    let item = p(line).unwrap();
    assert_eq!(item.raw_line, line);
}

#[test]
fn block_comment_without_closing() {
    // A block comment opening without closing on the same line
    let item = p("/* BUG: multiline start").unwrap();
    assert_eq!(item.tag, Tag::Bug);
    assert_eq!(item.message, "multiline start");
}

#[test]
fn lowercase_tag_not_matched() {
    assert!(p("// todo: lowercase").is_none());
}

// --- Further cases ---

#[test]
fn author_is_trimmed() {
    let item = p("// TODO(  carol  ): tidy").unwrap();
    assert_eq!(item.author, Some("carol".to_string()));
    assert_eq!(item.message, "tidy");
}

#[test]
fn whitespace_only_author_is_absent() {
    let item = p("// NOTE(   ) spaced").unwrap();
    assert!(item.author.is_none());
    assert_eq!(item.message, "spaced");
}

#[test]
fn unclosed_paren_is_part_of_message() {
    let item = p("// TODO(alice: open").unwrap();
    assert!(item.author.is_none());
    assert_eq!(item.message, "(alice: open");
}

#[test]
fn leftmost_opener_wins() {
    let item = p("x = 1 # NOTE: first // TODO: second").unwrap();
    assert_eq!(item.tag, Tag::Note);
    assert_eq!(item.message, "first // TODO: second");
}

#[test]
fn later_opener_used_when_first_has_no_tag() {
    let item = p("// plain /* WARN: careful */").unwrap();
    assert_eq!(item.tag, Tag::Warn);
    assert_eq!(item.message, "careful");
}

#[test]
fn tag_prefix_of_word_still_matches() {
    let item = p("// TODOS: more").unwrap();
    assert_eq!(item.tag, Tag::Todo);
    assert_eq!(item.message, "S: more");
}

#[test]
fn closing_marker_inside_message_is_kept() {
    let item = p("/* XXX: a */ b").unwrap();
    assert_eq!(item.tag, Tag::Xxx);
    assert_eq!(item.message, "a */ b");
}

#[test]
fn html_close_with_spaces_removed() {
    let item = p("<!--OPTIMIZE(dan)   speed up   -->").unwrap();
    assert_eq!(item.tag, Tag::Optimize);
    assert_eq!(item.author, Some("dan".to_string()));
    assert_eq!(item.message, "speed up");
}

#[test]
fn triple_slash_comment() {
    let item = p("/// TODO: docs").unwrap();
    assert_eq!(item.tag, Tag::Todo);
    assert_eq!(item.message, "docs");
}

#[test]
fn unicode_whitespace_is_whitespace() {
    let item = p("//\u{3000}FIXME:\u{a0}wide\u{2003}").unwrap();
    assert_eq!(item.tag, Tag::Fixme);
    assert_eq!(item.message, "wide");
}

#[test]
fn parse_tag_reads_names() {
    for t in Tag::all() {
        assert_eq!(parse_tag(t.name()), Some(t));
    }
    assert_eq!(parse_tag("todo"), None);
    assert_eq!(parse_tag("TODOS"), None);
    assert_eq!(parse_tag(""), None);
}

#[test]
fn all_lists_each_tag_once() {
    let all = Tag::all();
    assert_eq!(all.len(), 8);
    let names: Vec<&str> = all.iter().map(|t| t.name()).collect();
    assert_eq!(names, vec!["TODO", "FIXME", "HACK", "XXX", "NOTE", "OPTIMIZE", "BUG", "WARN"]);
}

/// The grammar of annotation lines, written as a regular expression.
fn grammar_regex() -> regex::Regex {
    regex::Regex::new(
        r"(?://|#|/\*|<!--)\s*(TODO|FIXME|HACK|XXX|NOTE|OPTIMIZE|BUG|WARN)\s*(?:\(([^)]*)\))?\s*:?\s*(.*?)(?:\s*-->|\s*\*/)?$",
    )
    .unwrap()
}

fn by_regex(re: &regex::Regex, line: &str) -> Option<(String, Option<String>, String)> {
    let caps = re.captures(line)?;
    let tag = caps.get(1)?.as_str().to_string();
    let author = caps
        .get(2)
        .map(|m| m.as_str().trim().to_string())
        .filter(|s| !s.is_empty());
    let message = caps.get(3).map(|m| m.as_str().trim().to_string()).unwrap_or_default();
    Some((tag, author, message))
}

#[test]
fn agrees_with_regular_expression() {
    let re = grammar_regex();
    let pieces = [
        "", " ", "  ", "\t", "\n", "\r", "\u{a0}", "//", "#", "/*", "*/", "<!--", "-->", "-", ">",
        "TODO", "FIXME", "NOTE", "BUG", "todo", "TOD", "(", ")", "(al)", ":", "x", "ab c", "/", "*",
        "!", "<",
    ];
    let mut checked = 0usize;
    // Every line of up to four pieces.
    let n = pieces.len();
    for a in 0..n {
        for b in 0..n {
            for c in 0..n {
                for d in [0usize, 1, 6, 8, 12, 15, 19, 22, 24, 25] {
                    let line = format!("{}{}{}{}", pieces[a], pieces[b], pieces[c], pieces[d]);
                    let expected = by_regex(&re, &line);
                    let got = p(&line).map(|i| (i.tag.name().to_string(), i.author, i.message));
                    assert_eq!(got, expected, "line {:?}", line);
                    checked += 1;
                }
            }
        }
    }
    assert!(checked > 1000);
}

#[test]
fn agrees_with_regular_expression_on_lines() {
    let re = grammar_regex();
    let lines = [
        "// TODO: fix this",
        "# FIXME(bob): memory leak",
        "/* HACK: workaround for bug */",
        "<!-- NOTE: deprecated section -->",
        "<!-- NOTE: a --> b -->",
        "code(); // TODO(x)(y): z",
        "// TODO: a\n*/",
        "// TODO\n: b",
        "// TODO(a\nb): c",
        "// TODO: one\ntwo",
        "#TODO",
        "## NOTE ##",
        "/*BUG*/",
        "// WARN -->   ",
        "// XXX:   \t  ",
        "// OPTIMIZE (slow) : later */",
        "/* /* TODO: nested */ */",
        "// TODO:: double",
        "//TODO(me):x*/",
        "\u{2028}// TODO:\u{2028}line sep",
    ];
    for line in lines {
        let expected = by_regex(&re, line);
        let got = p(line).map(|i| (i.tag.name().to_string(), i.author, i.message));
        assert_eq!(got, expected, "line {:?}", line);
    }
}

#[test]
fn written_annotations_read_back() {
    let openers = ["//", "#", "/*", "<!--"];
    let authors = [None, Some("alice"), Some("Bob Smith")];
    let messages = ["", "fix this", "a -> b", "x */ y", "(not an author)"];
    for o in openers {
        for t in Tag::all() {
            for a in authors {
                for m in messages {
                    let author_part = a.map(|a| format!("({})", a)).unwrap_or_default();
                    let line = format!("{} {}{}: {}", o, t.name(), author_part, m);
                    let item = parse_line(&line, "f.rs", 9).unwrap();
                    assert_eq!(item.tag, t, "line {:?}", line);
                    assert_eq!(item.author.as_deref(), a, "line {:?}", line);
                    assert_eq!(item.message, m, "line {:?}", line);
                    assert_eq!(item.raw_line, line);
                    assert_eq!(item.line, 9);
                }
            }
        }
    }
}
