//! The text the item browser shows: the list of rows, the detail of the
//! selected item, the tag labels and search text of the top bar, and the key
//! hints of the bottom bar.
use vstd::prelude::*;

use crate::literals::{
    s_detail_title, v_detail_title, s_no_selection, v_no_selection, s_app_title, v_app_title,
    s_file_label, s_line_label, s_tag_label, s_author_label, s_message_label,
    str_file_label, str_line_label, str_tag_label, str_author_label, str_message_label,
    s_results_open, v_results_open, s_results_close, v_results_close, s_results_plain, v_results_plain, s_no_matching, v_no_matching, s_tag_prefix, v_tag_prefix, s_file_prefix, v_file_prefix, s_line_prefix, v_line_prefix, s_author_prefix, v_author_prefix, s_message_prefix, v_message_prefix, s_raw_prefix, v_raw_prefix, s_bracket_open, v_bracket_open, s_key_sep, v_key_sep, s_bracket_close, v_bracket_close, s_slash, v_slash, s_cursor, v_cursor, s_search_open, v_search_open, s_quote, v_quote, s_hint_normal, v_hint_normal, s_hint_search, v_hint_search, s_hint_detail, v_hint_detail, s_dots, v_dots, s_dash, v_dash,
};
use crate::parser::tag_chars;
use crate::reporter::author_or_dash;
use crate::text::{
    byte_len, chars_of, decimal, decimal_chars, lemma_byte_len_skip, push_all, string_from_chars,
    strings_of, utf8_width_of,
};
use crate::tui::{App, AppMode};
use crate::types::{all_tags, tag_name, Tag, TodoItem, ItemView};

verus! {

/// The rows of strings of a table of strings.
pub open spec fn rows_of(rows: Seq<Vec<String>>) -> Seq<Seq<Seq<char>>> {
    rows.map_values(|row: Vec<String>| strings_of(row@))
}

/// A path as the list shows it: longer than 30 bytes, `..` and its last 28 characters.
pub open spec fn list_file(f: Seq<char>) -> Seq<char> {
    if byte_len(f) > 30 {
        s_dots() + f.skip(if f.len() >= 28 { f.len() - 28 } else { 0 })
    } else {
        f
    }
}

/// An item's row in the list: tag, path, line number, author (or `-`) and message.
pub open spec fn list_row(it: ItemView) -> Seq<Seq<char>> {
    seq![tag_name(it.tag), list_file(it.file), decimal(it.line), author_or_dash(it.author), it.message]
}

/// Whether every row shown is an index of an item.
pub open spec fn rows_in_range(app: App) -> bool {
    forall|i: int| 0 <= i < app.filtered_items@.len() ==> #[trigger] app.filtered_items@[i] < app.items@.len()
}

/// The title of the list: ` Results (n) ` for `n` rows shown, ` Results ` when none is.
pub open spec fn list_title_text(n: nat) -> Seq<char> {
    if n == 0 {
        s_results_plain()
    } else {
        s_results_open() + decimal(n) + s_results_close()
    }
}

fn chars_string(v: Vec<char>) -> (r: String)
    ensures
        r@ == v@,
{
    string_from_chars(v.as_slice())
}

fn list_file_chars(f: &Vec<char>) -> (r: Vec<char>)
    ensures
        r@ == list_file(f@),
{
    let mut j: usize = f.len();
    let mut acc: usize = 0;
    assert(f@.skip(f.len() as int) =~= Seq::<char>::empty());
    while j > 0 && acc <= 30
        invariant
            j <= f.len(),
            acc == byte_len(f@.skip(j as int)),
            acc <= 34,
        decreases j,
    {
        let w = utf8_width_of(f[j - 1]);
        assert(f@.skip(j - 1).drop_first() =~= f@.skip(j as int));
        assert(f@.skip(j - 1)[0] == f@[j - 1]);
        acc = acc + w;
        j = j - 1;
    }
    assert(f@.skip(0) =~= f@);
    proof {
        lemma_byte_len_skip(f@, 0, j as int);
    }
    if acc > 30 {
        let start = if f.len() >= 28 { f.len() - 28 } else { 0 };
        let mut out = v_dots();
        let mut i = start;
        while i < f.len()
            invariant
                start <= i <= f.len(),
                out@ == s_dots() + f@.subrange(start as int, i as int),
            decreases f.len() - i,
        {
            out.push(f[i]);
            assert(f@.subrange(start as int, i + 1) =~= f@.subrange(start as int, i as int).push(f@[i as int]));
            i = i + 1;
        }
        assert(f@.subrange(start as int, f.len() as int) =~= f@.skip(start as int));
        out
    } else {
        let mut out: Vec<char> = Vec::new();
        push_all(&mut out, f.as_slice());
        out
    }
}

/// The title of the list of rows.
pub fn list_title(app: &App) -> (r: String)
    ensures
        r@ == list_title_text(app.filtered_items@.len()),
{
    if app.filtered_items.len() == 0 {
        chars_string(v_results_plain())
    } else {
        let mut out = v_results_open();
        push_all(&mut out, decimal_chars(app.filtered_items.len()).as_slice());
        push_all(&mut out, v_results_close().as_slice());
        chars_string(out)
    }
}

/// What the list shows in place of rows when none is shown.
pub fn list_placeholder(app: &App) -> (r: Option<String>)
    ensures
        app.filtered_items@.len() == 0 ==> (r matches Some(t) && t@ == s_no_matching()),
        app.filtered_items@.len() > 0 ==> r is None,
{
    if app.filtered_items.len() == 0 {
        Some(chars_string(v_no_matching()))
    } else {
        None
    }
}

fn list_row_strings(item: &TodoItem) -> (r: Vec<String>)
    ensures
        strings_of(r@) == list_row(item@),
{
    let mut row: Vec<String> = Vec::new();
    row.push(chars_string(tag_chars(item.tag)));
    row.push(chars_string(list_file_chars(&chars_of(item.file.as_str()))));
    row.push(chars_string(decimal_chars(item.line)));
    match &item.author {
        Some(a) => row.push(chars_string(chars_of(a.as_str()))),
        None => row.push(chars_string(v_dash())),
    }
    row.push(chars_string(chars_of(item.message.as_str())));
    assert(strings_of(row@) =~= list_row(item@));
    row
}

/// The rows of the list: one per row shown, in order, each with the item's
/// tag, path (shortened past 30 bytes), line number, author (or `-`) and message.
pub fn list_rows(app: &App) -> (r: Vec<Vec<String>>)
    requires
        rows_in_range(*app),
    ensures
        rows_of(r@) == Seq::new(
            app.filtered_items@.len(),
            |i: int| list_row(app.items@[app.filtered_items@[i] as int]@),
        ),
{
    let mut rows: Vec<Vec<String>> = Vec::new();
    let mut k: usize = 0;
    while k < app.filtered_items.len()
        invariant
            k <= app.filtered_items.len(),
            rows_in_range(*app),
            rows_of(rows@) == Seq::new(k as nat, |i: int| list_row(app.items@[app.filtered_items@[i] as int]@)),
        decreases app.filtered_items.len() - k,
    {
        let idx = app.filtered_items[k];
        assert(idx < app.items.len());
        let row = list_row_strings(&app.items[idx]);
        let ghost before = rows@;
        let ghost rv = strings_of(row@);
        assert(rv == list_row(app.items@[app.filtered_items@[k as int] as int]@));
        rows.push(row);
        assert(rows_of(rows@) =~= rows_of(before).push(rv));
        assert(rows_of(rows@) =~= Seq::new((k + 1) as nat, |i: int| list_row(app.items@[app.filtered_items@[i] as int]@)));
        k = k + 1;
    }
    rows
}

/// The lines of the detail view of an item.
pub open spec fn detail_text(it: ItemView) -> Seq<Seq<char>> {
    seq![
        s_tag_prefix() + tag_name(it.tag),
        s_file_prefix() + it.file,
        s_line_prefix() + decimal(it.line),
        s_author_prefix() + author_or_dash(it.author),
        Seq::empty(),
        s_message_prefix() + it.message,
        Seq::empty(),
        s_raw_prefix() + it.raw_line,
    ]
}

fn prefixed(prefix: Vec<char>, rest: &[char]) -> (r: String)
    ensures
        r@ == prefix@ + rest@,
{
    let mut out = prefix;
    push_all(&mut out, rest);
    chars_string(out)
}

/// The lines of the detail view of the selected item, or `None` when no item
/// is selected (the view then says that none is).
pub fn detail_lines(app: &App) -> (r: Option<Vec<String>>)
    ensures
        match app.selected_item_spec() {
            Some(it) => r matches Some(lines) && strings_of(lines@) == detail_text(it@),
            None => r is None,
        },
{
    match app.selected_item() {
        None => None,
        Some(item) => {
            let mut lines: Vec<String> = Vec::new();
            lines.push(prefixed(v_tag_prefix(), tag_chars(item.tag).as_slice()));
            lines.push(prefixed(v_file_prefix(), chars_of(item.file.as_str()).as_slice()));
            lines.push(prefixed(v_line_prefix(), decimal_chars(item.line).as_slice()));
            match &item.author {
                Some(a) => lines.push(prefixed(v_author_prefix(), chars_of(a.as_str()).as_slice())),
                None => lines.push(prefixed(v_author_prefix(), v_dash().as_slice())),
            }
            lines.push(chars_string(Vec::new()));
            lines.push(prefixed(v_message_prefix(), chars_of(item.message.as_str()).as_slice()));
            lines.push(chars_string(Vec::new()));
            lines.push(prefixed(v_raw_prefix(), chars_of(item.raw_line.as_str()).as_slice()));
            assert(strings_of(lines@) =~= detail_text(item@));
            Some(lines)
        },
    }
}

/// The digit key of the tag at place `i` of `Tag::all`.
pub open spec fn key_digit(i: int) -> char {
    if i == 0 { '1' }
    else if i == 1 { '2' }
    else if i == 2 { '3' }
    else if i == 3 { '4' }
    else if i == 4 { '5' }
    else if i == 5 { '6' }
    else if i == 6 { '7' }
    else { '8' }
}

fn key_digit_exec(i: usize) -> (c: char)
    requires
        i < 8,
    ensures
        c == key_digit(i as int),
{
    if i == 0 { '1' }
    else if i == 1 { '2' }
    else if i == 2 { '3' }
    else if i == 3 { '4' }
    else if i == 4 { '5' }
    else if i == 5 { '6' }
    else if i == 6 { '7' }
    else { '8' }
}

/// The label of the tag at place `i` of `Tag::all` in the top bar: `[key:NAME]`.
pub open spec fn tag_label(i: int) -> Seq<char> {
    s_bracket_open() + seq![key_digit(i)] + s_key_sep() + tag_name(all_tags()[i]) + s_bracket_close()
}

/// Whether a tag is shown as active: every tag is when no filter is set.
pub open spec fn tag_active(tags: Set<Tag>, t: Tag) -> bool {
    tags == Set::<Tag>::empty() || tags.contains(t)
}

/// The views of a sequence of labels with a flag.
pub open spec fn labels_of(ls: Seq<(String, bool)>) -> Seq<(Seq<char>, bool)> {
    ls.map_values(|l: (String, bool)| (l.0@, l.1))
}

fn tag_at_place(i: usize) -> (t: Tag)
    requires
        i < 8,
    ensures
        t == all_tags()[i as int],
{
    if i == 0 { Tag::Todo }
    else if i == 1 { Tag::Fixme }
    else if i == 2 { Tag::Hack }
    else if i == 3 { Tag::Xxx }
    else if i == 4 { Tag::Note }
    else if i == 5 { Tag::Optimize }
    else if i == 6 { Tag::Bug }
    else { Tag::Warn }
}

/// The tag labels of the top bar, in the order of `Tag::all`, each with
/// whether its tag is active (every tag is when no filter is set); the key
/// of each is the digit that toggles it.
pub fn tag_labels(app: &App) -> (r: Vec<(String, bool)>)
    ensures
        labels_of(r@) == Seq::new(8, |i: int| (tag_label(i), tag_active(app.active_tag_filters@, all_tags()[i]))),
{
    let none_active = app.active_tag_filters.is_empty();
    let mut out: Vec<(String, bool)> = Vec::new();
    let mut i: usize = 0;
    while i < 8
        invariant
            i <= 8,
            none_active == (app.active_tag_filters@ == Set::<Tag>::empty()),
            labels_of(out@) == Seq::new(i as nat, |j: int| (tag_label(j), tag_active(app.active_tag_filters@, all_tags()[j]))),
        decreases 8 - i,
    {
        let t = tag_at_place(i);
        let mut label = v_bracket_open();
        label.push(key_digit_exec(i));
        push_all(&mut label, v_key_sep().as_slice());
        push_all(&mut label, tag_chars(t).as_slice());
        push_all(&mut label, v_bracket_close().as_slice());
        assert(label@ =~= tag_label(i as int));
        let active = none_active || app.active_tag_filters.contains(&t);
        let ls = chars_string(label);
        let ghost before = out@;
        let ghost lv = (ls@, active);
        assert(lv == (tag_label(i as int), tag_active(app.active_tag_filters@, all_tags()[i as int])));
        out.push((ls, active));
        assert(labels_of(out@) =~= labels_of(before).push(lv));
        assert(labels_of(out@) =~= Seq::new((i + 1) as nat, |j: int| (tag_label(j), tag_active(app.active_tag_filters@, all_tags()[j]))));
        i = i + 1;
    }
    out
}

/// The search text of the top bar: `/query_` while searching, ` search: "query"`
/// when a query is set outside search mode, nothing otherwise.
pub open spec fn search_text_of(mode: AppMode, q: Seq<char>) -> Seq<char> {
    if mode == AppMode::Search {
        s_slash() + q + s_cursor()
    } else if q.len() > 0 {
        s_search_open() + q + s_quote()
    } else {
        Seq::empty()
    }
}

/// The search text of the top bar.
pub fn search_text(app: &App) -> (r: String)
    ensures
        r@ == search_text_of(app.mode, app.search_query@),
{
    let q = chars_of(app.search_query.as_str());
    if app.mode == AppMode::Search {
        let mut out = v_slash();
        push_all(&mut out, q.as_slice());
        push_all(&mut out, v_cursor().as_slice());
        chars_string(out)
    } else if q.len() > 0 {
        let mut out = v_search_open();
        push_all(&mut out, q.as_slice());
        push_all(&mut out, v_quote().as_slice());
        chars_string(out)
    } else {
        chars_string(Vec::new())
    }
}

/// The key hints of the bottom bar in mode `mode`.
pub open spec fn hints_of(mode: AppMode) -> Seq<char> {
    match mode {
        AppMode::Normal => s_hint_normal(),
        AppMode::Search => s_hint_search(),
        AppMode::Detail => s_hint_detail(),
    }
}

/// The key hints of the bottom bar.
pub fn bottom_hints(mode: AppMode) -> (r: String)
    ensures
        r@ == hints_of(mode),
{
    match mode {
        AppMode::Normal => chars_string(v_hint_normal()),
        AppMode::Search => chars_string(v_hint_search()),
        AppMode::Detail => chars_string(v_hint_detail()),
    }
}

/// The header row of the list: `Tag`, `File`, `Line`, `Author`, `Message`.
pub open spec fn list_header_text() -> Seq<Seq<char>> {
    seq![s_tag_label(), s_file_label(), s_line_label(), s_author_label(), s_message_label()]
}

/// The header row of the list.
pub fn list_header() -> (r: Vec<String>)
    ensures
        strings_of(r@) == list_header_text(),
{
    let mut h: Vec<String> = Vec::new();
    h.push(str_tag_label().to_owned());
    h.push(str_file_label().to_owned());
    h.push(str_line_label().to_owned());
    h.push(str_author_label().to_owned());
    h.push(str_message_label().to_owned());
    assert(strings_of(h@) =~= list_header_text());
    h
}

/// The title of the detail view, ` Detail `, with or without a selected item.
pub fn detail_title() -> (r: String)
    ensures
        r@ == s_detail_title(),
{
    chars_string(v_detail_title())
}

/// What the detail view shows in place of lines when no item is selected:
/// `  No item selected.`.
pub fn detail_placeholder(app: &App) -> (r: Option<String>)
    ensures
        app.selected_item_spec() is None ==> (r matches Some(t) && t@ == s_no_selection()),
        app.selected_item_spec() is Some ==> r is None,
{
    match app.selected_item() {
        None => Some(chars_string(v_no_selection())),
        Some(_) => None,
    }
}

/// The title at the start of the top bar, ` todohawk `.
pub fn top_bar_title() -> (r: String)
    ensures
        r@ == s_app_title(),
{
    chars_string(v_app_title())
}

} // verus!

verus! {

/// The digit in each tag's label in the top bar is the key that toggles
/// that tag: the label at place `i` of `Tag::all` reads `[d:NAME]` where the
/// key `d` stands for the tag at place `i`.
pub proof fn lemma_labels_name_their_keys(i: int)
    requires
        0 <= i < 8,
    ensures
        tag_label(i)[0] == '[',
        crate::tui::key_tag(tag_label(i)[1]) == Some(all_tags()[i]),
{
    assert(tag_label(i)[1] == key_digit(i));
}

} // verus!
