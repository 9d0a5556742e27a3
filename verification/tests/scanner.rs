use todohawk::scanner::{
    extension_is_scannable, is_binary_extension, is_ignored, is_scannable, scan_text, should_scan, EntryInfo,
};
use todohawk::types::Tag;

#[test]
fn test_is_scannable() {
    assert!(is_scannable("foo.rs"));
    assert!(is_scannable("bar.py"));
    assert!(is_scannable("Makefile"));
    assert!(!is_scannable("image.png"));
    assert!(!is_scannable("archive.zip"));
    assert!(!is_scannable("Cargo.lock"));
}

#[test]
fn extension_compared_lower_cased() {
    assert!(!is_scannable("PHOTO.JPG"));
    assert!(!is_scannable("dir/Archive.Tar"));
    assert!(is_scannable("notes.txt"));
    assert!(is_scannable(".bashrc"));
    assert!(extension_is_scannable(None));
    assert!(!extension_is_scannable(Some("WOFF2")));
    assert!(extension_is_scannable(Some("rs")));
}

#[test]
fn binary_extensions_are_exact() {
    assert!(is_binary_extension("7z"));
    assert!(is_binary_extension("lock"));
    assert!(!is_binary_extension("PNG"));
    assert!(!is_binary_extension("pn"));
    assert!(!is_binary_extension(""));
}

fn entry(depth: usize, name: &str, is_dir: bool) -> EntryInfo {
    EntryInfo { depth, name: name.to_string(), is_dir }
}

#[test]
fn ignored_entries() {
    assert!(!is_ignored(&entry(0, ".", true)));
    assert!(!is_ignored(&entry(0, "target", true)));
    assert!(is_ignored(&entry(1, ".git", true)));
    assert!(is_ignored(&entry(2, ".hidden.rs", false)));
    assert!(is_ignored(&entry(1, "target", true)));
    assert!(is_ignored(&entry(3, "node_modules", true)));
    assert!(is_ignored(&entry(1, "__pycache__", true)));
    assert!(!is_ignored(&entry(1, "target", false)));
    assert!(!is_ignored(&entry(1, "src", true)));
}

#[test]
fn scan_text_numbers_lines_from_one() {
    let items = scan_text("fn main() {\n    // TODO: implement this\n}\n", "main.rs");
    assert_eq!(items.len(), 1);
    assert_eq!(items[0].tag, Tag::Todo);
    assert_eq!(items[0].line, 2);
    assert_eq!(items[0].file, "main.rs");
    assert_eq!(items[0].raw_line, "    // TODO: implement this");
    assert_eq!(items[0].message, "implement this");
}

#[test]
fn scan_text_splits_like_lines() {
    let items = scan_text("// FIXME: broken\r\nfn foo() {}\r\n# NOTE: last", "lib.rs");
    assert_eq!(items.len(), 2);
    assert_eq!(items[0].line, 1);
    assert_eq!(items[0].raw_line, "// FIXME: broken");
    assert_eq!(items[1].line, 3);
    assert_eq!(items[1].message, "last");
    assert!(scan_text("", "x").is_empty());
    let items = scan_text("\n\n// BUG: third\r", "x");
    assert_eq!(items.len(), 1);
    assert_eq!(items[0].line, 3);
    assert_eq!(items[0].raw_line, "// BUG: third\r");
}

#[test]
fn extension_is_that_of_the_last_part() {
    assert!(!is_scannable("dir/sub/image.PNG"));
    assert!(is_scannable("a.png/Makefile"));
    assert!(is_scannable("src/.gitignore"));
    assert!(!is_scannable("/abs/path/to/archive.tar.GZ"));
    assert!(is_scannable("notes."));
}

#[test]
fn only_scannable_regular_files_are_scanned() {
    assert!(should_scan(true, "src/main.rs"));
    assert!(!should_scan(false, "src/main.rs"));
    assert!(!should_scan(true, "logo.PNG"));
    assert!(should_scan(true, "Dockerfile"));
}
