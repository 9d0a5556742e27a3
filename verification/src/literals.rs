//! Literal texts of the reports, as characters.
use vstd::prelude::*;

verus! {

/// The text shown when nothing was found.
pub open spec fn s_no_items() -> Seq<char> {
    seq!['N', 'o', ' ', 'T', 'O', 'D', 'O', ' ', 'i', 't', 'e', 'm', 's', ' ', 'f', 'o', 'u', 'n', 'd', '.']
}

/// The text shown when nothing was found.
pub fn v_no_items() -> (r: Vec<char>)
    ensures
        r@ == s_no_items(),
{
    let r = vec!['N', 'o', ' ', 'T', 'O', 'D', 'O', ' ', 'i', 't', 'e', 'm', 's', ' ', 'f', 'o', 'u', 'n', 'd', '.'];
    assert(r@ =~= s_no_items());
    r
}

/// The title of a markdown report.
pub open spec fn s_md_title() -> Seq<char> {
    seq!['#', ' ', 'T', 'O', 'D', 'O', ' ', 'I', 't', 'e', 'm', 's']
}

/// The title of a markdown report.
pub fn v_md_title() -> (r: Vec<char>)
    ensures
        r@ == s_md_title(),
{
    let r = vec!['#', ' ', 'T', 'O', 'D', 'O', ' ', 'I', 't', 'e', 'm', 's'];
    assert(r@ =~= s_md_title());
    r
}

/// What opens a file's heading in a markdown report.
pub open spec fn s_md_file_open() -> Seq<char> {
    seq!['#', '#', ' ', '`']
}

/// What opens a file's heading in a markdown report.
pub fn v_md_file_open() -> (r: Vec<char>)
    ensures
        r@ == s_md_file_open(),
{
    let r = vec!['#', '#', ' ', '`'];
    assert(r@ =~= s_md_file_open());
    r
}

/// What closes a file's heading in a markdown report.
pub open spec fn s_md_file_close() -> Seq<char> {
    seq!['`']
}

/// What closes a file's heading in a markdown report.
pub fn v_md_file_close() -> (r: Vec<char>)
    ensures
        r@ == s_md_file_close(),
{
    let r = vec!['`'];
    assert(r@ =~= s_md_file_close());
    r
}

/// What opens an item's line in a markdown report.
pub open spec fn s_md_bullet() -> Seq<char> {
    seq!['-', ' ', '*', '*']
}

/// What opens an item's line in a markdown report.
pub fn v_md_bullet() -> (r: Vec<char>)
    ensures
        r@ == s_md_bullet(),
{
    let r = vec!['-', ' ', '*', '*'];
    assert(r@ =~= s_md_bullet());
    r
}

/// What closes the tag of an item's line in a markdown report.
pub open spec fn s_md_bold_close() -> Seq<char> {
    seq!['*', '*']
}

/// What closes the tag of an item's line in a markdown report.
pub fn v_md_bold_close() -> (r: Vec<char>)
    ensures
        r@ == s_md_bold_close(),
{
    let r = vec!['*', '*'];
    assert(r@ =~= s_md_bold_close());
    r
}

/// What opens an author in parentheses.
pub open spec fn s_paren_open() -> Seq<char> {
    seq![' ', '(']
}

/// What opens an author in parentheses.
pub fn v_paren_open() -> (r: Vec<char>)
    ensures
        r@ == s_paren_open(),
{
    let r = vec![' ', '('];
    assert(r@ =~= s_paren_open());
    r
}

/// What closes an author in parentheses.
pub open spec fn s_paren_close() -> Seq<char> {
    seq![')']
}

/// What closes an author in parentheses.
pub fn v_paren_close() -> (r: Vec<char>)
    ensures
        r@ == s_paren_close(),
{
    let r = vec![')'];
    assert(r@ =~= s_paren_close());
    r
}

/// What opens the line number in a markdown report.
pub open spec fn s_md_line_open() -> Seq<char> {
    seq![' ', '(', 'l', 'i', 'n', 'e', ' ']
}

/// What opens the line number in a markdown report.
pub fn v_md_line_open() -> (r: Vec<char>)
    ensures
        r@ == s_md_line_open(),
{
    let r = vec![' ', '(', 'l', 'i', 'n', 'e', ' '];
    assert(r@ =~= s_md_line_open());
    r
}

/// What closes the line number in a markdown report.
pub open spec fn s_md_line_close() -> Seq<char> {
    seq![')', ':', ' ']
}

/// What closes the line number in a markdown report.
pub fn v_md_line_close() -> (r: Vec<char>)
    ensures
        r@ == s_md_line_close(),
{
    let r = vec![')', ':', ' '];
    assert(r@ =~= s_md_line_close());
    r
}

/// What separates a tag from its count in a summary.
pub open spec fn s_count_sep() -> Seq<char> {
    seq![':', ' ']
}

/// What separates a tag from its count in a summary.
pub fn v_count_sep() -> (r: Vec<char>)
    ensures
        r@ == s_count_sep(),
{
    let r = vec![':', ' '];
    assert(r@ =~= s_count_sep());
    r
}

/// What separates the counts in a summary.
pub open spec fn s_part_sep() -> Seq<char> {
    seq![',', ' ']
}

/// What separates the counts in a summary.
pub fn v_part_sep() -> (r: Vec<char>)
    ensures
        r@ == s_part_sep(),
{
    let r = vec![',', ' '];
    assert(r@ =~= s_part_sep());
    r
}

/// What opens the total of a summary.
pub open spec fn s_total_open() -> Seq<char> {
    seq!['\n', 'T', 'o', 't', 'a', 'l', ':', ' ']
}

/// What opens the total of a summary.
pub fn v_total_open() -> (r: Vec<char>)
    ensures
        r@ == s_total_open(),
{
    let r = vec!['\n', 'T', 'o', 't', 'a', 'l', ':', ' '];
    assert(r@ =~= s_total_open());
    r
}

/// What stands for a missing author in a table.
pub open spec fn s_dash() -> Seq<char> {
    seq!['-']
}

/// What stands for a missing author in a table.
pub fn v_dash() -> (r: Vec<char>)
    ensures
        r@ == s_dash(),
{
    let r = vec!['-'];
    assert(r@ =~= s_dash());
    r
}

/// What marks a shortened file path in a table.
pub open spec fn s_dots() -> Seq<char> {
    seq!['.', '.']
}

/// What marks a shortened file path in a table.
pub fn v_dots() -> (r: Vec<char>)
    ensures
        r@ == s_dots(),
{
    let r = vec!['.', '.'];
    assert(r@ =~= s_dots());
    r
}

/// The line separator.
pub open spec fn s_newline() -> Seq<char> {
    seq!['\n']
}

/// The line separator.
pub fn v_newline() -> (r: Vec<char>)
    ensures
        r@ == s_newline(),
{
    let r = vec!['\n'];
    assert(r@ =~= s_newline());
    r
}

/// The column separator of a table.
pub open spec fn s_space() -> Seq<char> {
    seq![' ']
}

/// The column separator of a table.
pub fn v_space() -> (r: Vec<char>)
    ensures
        r@ == s_space(),
{
    let r = vec![' '];
    assert(r@ =~= s_space());
    r
}

/// The heading of the file column of a table.
pub open spec fn s_file_label() -> Seq<char> {
    seq!['F', 'i', 'l', 'e']
}

/// The heading of the file column of a table.
pub fn str_file_label() -> (r: &'static str)
    ensures
        r@ == s_file_label(),
{
    proof {
        reveal_strlit("File");
    }
    "File"
}

/// The heading of the line column of a table.
pub open spec fn s_line_label() -> Seq<char> {
    seq!['L', 'i', 'n', 'e']
}

/// The heading of the line column of a table.
pub fn str_line_label() -> (r: &'static str)
    ensures
        r@ == s_line_label(),
{
    proof {
        reveal_strlit("Line");
    }
    "Line"
}

/// The heading of the tag column of a table.
pub open spec fn s_tag_label() -> Seq<char> {
    seq!['T', 'a', 'g']
}

/// The heading of the tag column of a table.
pub fn str_tag_label() -> (r: &'static str)
    ensures
        r@ == s_tag_label(),
{
    proof {
        reveal_strlit("Tag");
    }
    "Tag"
}

/// The heading of the author column of a table.
pub open spec fn s_author_label() -> Seq<char> {
    seq!['A', 'u', 't', 'h', 'o', 'r']
}

/// The heading of the author column of a table.
pub fn str_author_label() -> (r: &'static str)
    ensures
        r@ == s_author_label(),
{
    proof {
        reveal_strlit("Author");
    }
    "Author"
}

/// The heading of the message column of a table.
pub open spec fn s_message_label() -> Seq<char> {
    seq!['M', 'e', 's', 's', 'a', 'g', 'e']
}

/// The heading of the message column of a table.
pub fn str_message_label() -> (r: &'static str)
    ensures
        r@ == s_message_label(),
{
    proof {
        reveal_strlit("Message");
    }
    "Message"
}

/// What opens the title of the list of rows.
pub open spec fn s_results_open() -> Seq<char> {
    seq![' ', 'R', 'e', 's', 'u', 'l', 't', 's', ' ', '(']
}

/// What opens the title of the list of rows.
pub fn v_results_open() -> (r: Vec<char>)
    ensures
        r@ == s_results_open(),
{
    let r = vec![' ', 'R', 'e', 's', 'u', 'l', 't', 's', ' ', '('];
    assert(r@ =~= s_results_open());
    r
}

/// What closes the title of the list of rows.
pub open spec fn s_results_close() -> Seq<char> {
    seq![')', ' ']
}

/// What closes the title of the list of rows.
pub fn v_results_close() -> (r: Vec<char>)
    ensures
        r@ == s_results_close(),
{
    let r = vec![')', ' '];
    assert(r@ =~= s_results_close());
    r
}

/// The title of an empty list of rows.
pub open spec fn s_results_plain() -> Seq<char> {
    seq![' ', 'R', 'e', 's', 'u', 'l', 't', 's', ' ']
}

/// The title of an empty list of rows.
pub fn v_results_plain() -> (r: Vec<char>)
    ensures
        r@ == s_results_plain(),
{
    let r = vec![' ', 'R', 'e', 's', 'u', 'l', 't', 's', ' '];
    assert(r@ =~= s_results_plain());
    r
}

/// What an empty list of rows shows.
pub open spec fn s_no_matching() -> Seq<char> {
    seq![' ', ' ', 'N', 'o', ' ', 'm', 'a', 't', 'c', 'h', 'i', 'n', 'g', ' ', 'i', 't', 'e', 'm', 's', '.']
}

/// What an empty list of rows shows.
pub fn v_no_matching() -> (r: Vec<char>)
    ensures
        r@ == s_no_matching(),
{
    let r = vec![' ', ' ', 'N', 'o', ' ', 'm', 'a', 't', 'c', 'h', 'i', 'n', 'g', ' ', 'i', 't', 'e', 'm', 's', '.'];
    assert(r@ =~= s_no_matching());
    r
}

/// What opens the tag line of the detail view.
pub open spec fn s_tag_prefix() -> Seq<char> {
    seq!['T', 'a', 'g', ':', ' ', ' ', ' ', ' ', ' ']
}

/// What opens the tag line of the detail view.
pub fn v_tag_prefix() -> (r: Vec<char>)
    ensures
        r@ == s_tag_prefix(),
{
    let r = vec!['T', 'a', 'g', ':', ' ', ' ', ' ', ' ', ' '];
    assert(r@ =~= s_tag_prefix());
    r
}

/// What opens the file line of the detail view.
pub open spec fn s_file_prefix() -> Seq<char> {
    seq!['F', 'i', 'l', 'e', ':', ' ', ' ', ' ', ' ']
}

/// What opens the file line of the detail view.
pub fn v_file_prefix() -> (r: Vec<char>)
    ensures
        r@ == s_file_prefix(),
{
    let r = vec!['F', 'i', 'l', 'e', ':', ' ', ' ', ' ', ' '];
    assert(r@ =~= s_file_prefix());
    r
}

/// What opens the line-number line of the detail view.
pub open spec fn s_line_prefix() -> Seq<char> {
    seq!['L', 'i', 'n', 'e', ':', ' ', ' ', ' ', ' ']
}

/// What opens the line-number line of the detail view.
pub fn v_line_prefix() -> (r: Vec<char>)
    ensures
        r@ == s_line_prefix(),
{
    let r = vec!['L', 'i', 'n', 'e', ':', ' ', ' ', ' ', ' '];
    assert(r@ =~= s_line_prefix());
    r
}

/// What opens the author line of the detail view.
pub open spec fn s_author_prefix() -> Seq<char> {
    seq!['A', 'u', 't', 'h', 'o', 'r', ':', ' ', ' ']
}

/// What opens the author line of the detail view.
pub fn v_author_prefix() -> (r: Vec<char>)
    ensures
        r@ == s_author_prefix(),
{
    let r = vec!['A', 'u', 't', 'h', 'o', 'r', ':', ' ', ' '];
    assert(r@ =~= s_author_prefix());
    r
}

/// What opens the message line of the detail view.
pub open spec fn s_message_prefix() -> Seq<char> {
    seq!['M', 'e', 's', 's', 'a', 'g', 'e', ':', ' ']
}

/// What opens the message line of the detail view.
pub fn v_message_prefix() -> (r: Vec<char>)
    ensures
        r@ == s_message_prefix(),
{
    let r = vec!['M', 'e', 's', 's', 'a', 'g', 'e', ':', ' '];
    assert(r@ =~= s_message_prefix());
    r
}

/// What opens the raw-line line of the detail view.
pub open spec fn s_raw_prefix() -> Seq<char> {
    seq!['R', 'a', 'w', ':', ' ', ' ', ' ', ' ', ' ']
}

/// What opens the raw-line line of the detail view.
pub fn v_raw_prefix() -> (r: Vec<char>)
    ensures
        r@ == s_raw_prefix(),
{
    let r = vec!['R', 'a', 'w', ':', ' ', ' ', ' ', ' ', ' '];
    assert(r@ =~= s_raw_prefix());
    r
}

/// What opens a tag's label in the top bar.
pub open spec fn s_bracket_open() -> Seq<char> {
    seq!['[']
}

/// What opens a tag's label in the top bar.
pub fn v_bracket_open() -> (r: Vec<char>)
    ensures
        r@ == s_bracket_open(),
{
    let r = vec!['['];
    assert(r@ =~= s_bracket_open());
    r
}

/// What separates a tag's key from its name in the top bar.
pub open spec fn s_key_sep() -> Seq<char> {
    seq![':']
}

/// What separates a tag's key from its name in the top bar.
pub fn v_key_sep() -> (r: Vec<char>)
    ensures
        r@ == s_key_sep(),
{
    let r = vec![':'];
    assert(r@ =~= s_key_sep());
    r
}

/// What closes a tag's label in the top bar.
pub open spec fn s_bracket_close() -> Seq<char> {
    seq![']']
}

/// What closes a tag's label in the top bar.
pub fn v_bracket_close() -> (r: Vec<char>)
    ensures
        r@ == s_bracket_close(),
{
    let r = vec![']'];
    assert(r@ =~= s_bracket_close());
    r
}

/// What opens the query while searching.
pub open spec fn s_slash() -> Seq<char> {
    seq!['/']
}

/// What opens the query while searching.
pub fn v_slash() -> (r: Vec<char>)
    ensures
        r@ == s_slash(),
{
    let r = vec!['/'];
    assert(r@ =~= s_slash());
    r
}

/// What closes the query while searching.
pub open spec fn s_cursor() -> Seq<char> {
    seq!['_']
}

/// What closes the query while searching.
pub fn v_cursor() -> (r: Vec<char>)
    ensures
        r@ == s_cursor(),
{
    let r = vec!['_'];
    assert(r@ =~= s_cursor());
    r
}

/// What opens the query outside search mode.
pub open spec fn s_search_open() -> Seq<char> {
    seq![' ', 's', 'e', 'a', 'r', 'c', 'h', ':', ' ', '"']
}

/// What opens the query outside search mode.
pub fn v_search_open() -> (r: Vec<char>)
    ensures
        r@ == s_search_open(),
{
    let r = vec![' ', 's', 'e', 'a', 'r', 'c', 'h', ':', ' ', '"'];
    assert(r@ =~= s_search_open());
    r
}

/// What closes the query outside search mode.
pub open spec fn s_quote() -> Seq<char> {
    seq!['"']
}

/// What closes the query outside search mode.
pub fn v_quote() -> (r: Vec<char>)
    ensures
        r@ == s_quote(),
{
    let r = vec!['"'];
    assert(r@ =~= s_quote());
    r
}

/// The key hints of normal mode.
pub open spec fn s_hint_normal() -> Seq<char> {
    seq![' ', 'j', '/', 'k', ':', ' ', 'n', 'a', 'v', 'i', 'g', 'a', 't', 'e', ' ', ' ', 'E', 'n', 't', 'e', 'r', ':', ' ', 'd', 'e', 't', 'a', 'i', 'l', ' ', ' ', '/', ':', ' ', 's', 'e', 'a', 'r', 'c', 'h', ' ', ' ', '1', '-', '8', ':', ' ', 'f', 'i', 'l', 't', 'e', 'r', ' ', ' ', 'c', ':', ' ', 'c', 'l', 'e', 'a', 'r', ' ', ' ', 'q', ':', ' ', 'q', 'u', 'i', 't']
}

/// The key hints of normal mode.
pub fn v_hint_normal() -> (r: Vec<char>)
    ensures
        r@ == s_hint_normal(),
{
    let r = vec![' ', 'j', '/', 'k', ':', ' ', 'n', 'a', 'v', 'i', 'g', 'a', 't', 'e', ' ', ' ', 'E', 'n', 't', 'e', 'r', ':', ' ', 'd', 'e', 't', 'a', 'i', 'l', ' ', ' ', '/', ':', ' ', 's', 'e', 'a', 'r', 'c', 'h', ' ', ' ', '1', '-', '8', ':', ' ', 'f', 'i', 'l', 't', 'e', 'r', ' ', ' ', 'c', ':', ' ', 'c', 'l', 'e', 'a', 'r', ' ', ' ', 'q', ':', ' ', 'q', 'u', 'i', 't'];
    assert(r@ =~= s_hint_normal());
    r
}

/// The key hints of search mode.
pub open spec fn s_hint_search() -> Seq<char> {
    seq![' ', 'T', 'y', 'p', 'e', ' ', 't', 'o', ' ', 's', 'e', 'a', 'r', 'c', 'h', ' ', ' ', 'E', 'n', 't', 'e', 'r', '/', 'E', 's', 'c', ':', ' ', 'e', 'x', 'i', 't', ' ', 's', 'e', 'a', 'r', 'c', 'h', ' ', ' ', 'B', 'a', 'c', 'k', 's', 'p', 'a', 'c', 'e', ':', ' ', 'd', 'e', 'l', 'e', 't', 'e']
}

/// The key hints of search mode.
pub fn v_hint_search() -> (r: Vec<char>)
    ensures
        r@ == s_hint_search(),
{
    let r = vec![' ', 'T', 'y', 'p', 'e', ' ', 't', 'o', ' ', 's', 'e', 'a', 'r', 'c', 'h', ' ', ' ', 'E', 'n', 't', 'e', 'r', '/', 'E', 's', 'c', ':', ' ', 'e', 'x', 'i', 't', ' ', 's', 'e', 'a', 'r', 'c', 'h', ' ', ' ', 'B', 'a', 'c', 'k', 's', 'p', 'a', 'c', 'e', ':', ' ', 'd', 'e', 'l', 'e', 't', 'e'];
    assert(r@ =~= s_hint_search());
    r
}

/// The key hints of the detail view.
pub open spec fn s_hint_detail() -> Seq<char> {
    seq![' ', 'E', 's', 'c', '/', 'E', 'n', 't', 'e', 'r', ':', ' ', 'b', 'a', 'c', 'k', ' ', ' ', 'j', '/', 'k', ':', ' ', 'p', 'r', 'e', 'v', '/', 'n', 'e', 'x', 't', ' ', ' ', 'q', ':', ' ', 'q', 'u', 'i', 't']
}

/// The key hints of the detail view.
pub fn v_hint_detail() -> (r: Vec<char>)
    ensures
        r@ == s_hint_detail(),
{
    let r = vec![' ', 'E', 's', 'c', '/', 'E', 'n', 't', 'e', 'r', ':', ' ', 'b', 'a', 'c', 'k', ' ', ' ', 'j', '/', 'k', ':', ' ', 'p', 'r', 'e', 'v', '/', 'n', 'e', 'x', 't', ' ', ' ', 'q', ':', ' ', 'q', 'u', 'i', 't'];
    assert(r@ =~= s_hint_detail());
    r
}

/// The title of the detail view.
pub open spec fn s_detail_title() -> Seq<char> {
    seq![' ', 'D', 'e', 't', 'a', 'i', 'l', ' ']
}

/// The title of the detail view.
pub fn v_detail_title() -> (r: Vec<char>)
    ensures
        r@ == s_detail_title(),
{
    let r = vec![' ', 'D', 'e', 't', 'a', 'i', 'l', ' '];
    assert(r@ =~= s_detail_title());
    r
}

/// What the detail view shows when no item is selected.
pub open spec fn s_no_selection() -> Seq<char> {
    seq![' ', ' ', 'N', 'o', ' ', 'i', 't', 'e', 'm', ' ', 's', 'e', 'l', 'e', 'c', 't', 'e', 'd', '.']
}

/// What the detail view shows when no item is selected.
pub fn v_no_selection() -> (r: Vec<char>)
    ensures
        r@ == s_no_selection(),
{
    let r = vec![' ', ' ', 'N', 'o', ' ', 'i', 't', 'e', 'm', ' ', 's', 'e', 'l', 'e', 'c', 't', 'e', 'd', '.'];
    assert(r@ =~= s_no_selection());
    r
}

/// The title at the start of the top bar.
pub open spec fn s_app_title() -> Seq<char> {
    seq![' ', 't', 'o', 'd', 'o', 'h', 'a', 'w', 'k', ' ']
}

/// The title at the start of the top bar.
pub fn v_app_title() -> (r: Vec<char>)
    ensures
        r@ == s_app_title(),
{
    let r = vec![' ', 't', 'o', 'd', 'o', 'h', 'a', 'w', 'k', ' '];
    assert(r@ =~= s_app_title());
    r
}

} // verus!
