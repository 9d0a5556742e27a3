//! Reports of the items found: a table, markdown grouped by file, or a summary of counts.
use vstd::prelude::*;

use crate::literals::{
    s_file_label, s_line_label, s_tag_label, s_author_label, s_message_label,
    str_file_label, str_line_label, str_tag_label, str_author_label, str_message_label,
    s_no_items, v_no_items, s_md_title, v_md_title, s_md_file_open, v_md_file_open, s_md_file_close, v_md_file_close, s_md_bullet, v_md_bullet, s_md_bold_close, v_md_bold_close, s_paren_open, v_paren_open, s_paren_close, v_paren_close, s_md_line_open, v_md_line_open, s_md_line_close, v_md_line_close, s_count_sep, v_count_sep, s_part_sep, v_part_sep, s_total_open, v_total_open, s_dash, v_dash, s_dots, v_dots, s_newline, v_newline, s_space, v_space,
};
use crate::order::{insert_sorted, lemma_lex_irreflexive, lex_lt, lemma_sorted_unique, sorted_insert_spec, strictly_sorted};
use crate::parser::tag_chars;
use crate::style::{colorize_tag, escape_free, paint_heading, plain_or_painted, tag_cell};
use crate::text::{
    byte_len, chars_of, decimal, decimal_chars, equals_chars, join, join_lines, lemma_byte_len_skip,
    pad, push_all, push_padded, seqs_of, string_from_chars, strings_of, to_uppercase, uppercase_of,
    utf8_width_of,
};
use crate::types::{item_views, ItemView, OutputFormat, Tag, TodoItem, tag_name};

verus! {

// ---------------------------------------------------------------- summary

/// The number of the first `k` items that carry tag `t`.
pub open spec fn count_tag(items: Seq<ItemView>, t: Tag, k: nat) -> nat
    decreases k,
{
    if k == 0 || k > items.len() {
        0
    } else {
        count_tag(items, t, (k - 1) as nat) + if items[k - 1].tag == t { 1nat } else { 0nat }
    }
}

/// The tags in the order of their names.
pub open spec fn summary_order() -> Seq<Tag> {
    seq![Tag::Bug, Tag::Fixme, Tag::Hack, Tag::Note, Tag::Optimize, Tag::Todo, Tag::Warn, Tag::Xxx]
}

/// `TAG: count` for each of the first `j` tags of the summary order that occur.
pub open spec fn summary_parts(items: Seq<ItemView>, j: nat) -> Seq<Seq<char>>
    decreases j,
{
    if j == 0 || j > summary_order().len() {
        Seq::empty()
    } else {
        let t = summary_order()[j - 1];
        let c = count_tag(items, t, items.len());
        let prev = summary_parts(items, (j - 1) as nat);
        if c > 0 {
            prev.push(tag_name(t) + s_count_sep() + decimal(c))
        } else {
            prev
        }
    }
}

/// The summary report: the count of each tag that occurs, in the order of the
/// tags' names, then the total.
pub open spec fn summary_text(items: Seq<ItemView>) -> Seq<char> {
    if items.len() == 0 {
        s_no_items()
    } else {
        join(summary_parts(items, summary_order().len()), s_part_sep()) + s_total_open() + decimal(
            items.len(),
        )
    }
}

fn count_of(items: &[TodoItem], t: Tag) -> (r: usize)
    ensures
        r == count_tag(item_views(items@), t, items.len() as nat),
{
    let ghost v = item_views(items@);
    let mut c: usize = 0;
    let mut k: usize = 0;
    while k < items.len()
        invariant
            k <= items.len(),
            v == item_views(items@),
            c == count_tag(v, t, k as nat),
            c <= k,
        decreases items.len() - k,
    {
        if items[k].tag == t {
            c = c + 1;
        }
        k = k + 1;
    }
    c
}

fn summary_tag(j: usize) -> (t: Tag)
    requires
        j < 8,
    ensures
        t == summary_order()[j as int],
{
    if j == 0 {
        Tag::Bug
    } else if j == 1 {
        Tag::Fixme
    } else if j == 2 {
        Tag::Hack
    } else if j == 3 {
        Tag::Note
    } else if j == 4 {
        Tag::Optimize
    } else if j == 5 {
        Tag::Todo
    } else if j == 6 {
        Tag::Warn
    } else {
        Tag::Xxx
    }
}

fn format_summary(items: &[TodoItem]) -> (r: String)
    ensures
        r@ == summary_text(item_views(items@)),
{
    string_from_chars(summary_chars(items).as_slice())
}

fn summary_chars(items: &[TodoItem]) -> (r: Vec<char>)
    ensures
        r@ == summary_text(item_views(items@)),
{
    if items.len() == 0 {
        return v_no_items();
    }
    let ghost v = item_views(items@);
    let mut parts: Vec<Vec<char>> = Vec::new();
    let mut j: usize = 0;
    while j < 8
        invariant
            j <= 8,
            v == item_views(items@),
            seqs_of(parts@) == summary_parts(v, j as nat),
        decreases 8 - j,
    {
        let t = summary_tag(j);
        let c = count_of(items, t);
        if c > 0 {
            let mut part = tag_chars(t);
            push_all(&mut part, v_count_sep().as_slice());
            push_all(&mut part, decimal_chars(c).as_slice());
            let ghost before = parts@;
            parts.push(part);
            assert(seqs_of(parts@) =~= seqs_of(before).push(part@));
        }
        j = j + 1;
    }
    let mut out = join_lines(&parts, v_part_sep().as_slice());
    push_all(&mut out, v_total_open().as_slice());
    push_all(&mut out, decimal_chars(items.len()).as_slice());
    out
}

// --------------------------------------------------------------- markdown

/// An item's line in a markdown report: `- **TAG** (author) (line N): message`.
pub open spec fn markdown_item(it: ItemView) -> Seq<char> {
    let author = match it.author {
        Some(a) => s_paren_open() + a + s_paren_close(),
        None => Seq::empty(),
    };
    s_md_bullet() + tag_name(it.tag) + s_md_bold_close() + author + s_md_line_open() + decimal(
        it.line,
    ) + s_md_line_close() + it.message
}

/// The markdown lines of those of the first `k` items that lie in file `f`.
pub open spec fn file_lines(items: Seq<ItemView>, f: Seq<char>, k: nat) -> Seq<Seq<char>>
    decreases k,
{
    if k == 0 || k > items.len() {
        Seq::empty()
    } else {
        let prev = file_lines(items, f, (k - 1) as nat);
        if items[k - 1].file == f {
            prev.push(markdown_item(items[k - 1]))
        } else {
            prev
        }
    }
}

/// The lines of the group of file `f`: its heading, a blank line, its items
/// in the order found, and a blank line.
pub open spec fn group_lines(items: Seq<ItemView>, f: Seq<char>) -> Seq<Seq<char>> {
    seq![s_md_file_open() + f + s_md_file_close(), Seq::empty()] + file_lines(
        items,
        f,
        items.len(),
    ) + seq![Seq::<char>::empty()]
}

/// The lines of the groups of the first `j` files of `fs`.
pub open spec fn groups_lines(items: Seq<ItemView>, fs: Seq<Seq<char>>, j: nat) -> Seq<Seq<char>>
    decreases j,
{
    if j == 0 || j > fs.len() {
        Seq::empty()
    } else {
        groups_lines(items, fs, (j - 1) as nat) + group_lines(items, fs[j - 1])
    }
}

/// Whether `fs` lists each file of `items` once, in the order of `String`.
pub open spec fn is_file_order(items: Seq<ItemView>, fs: Seq<Seq<char>>) -> bool {
    &&& strictly_sorted(fs)
    &&& forall|f: Seq<char>| fs.contains(f) <==> exists|i: int| 0 <= i < items.len() && #[trigger] items[i].file == f
}

/// The files of `items`, each once, in the order of `String`.
pub open spec fn file_order(items: Seq<ItemView>) -> Seq<Seq<char>> {
    choose|fs: Seq<Seq<char>>| is_file_order(items, fs)
}

/// `ls` without its last line when that line is blank.
pub open spec fn drop_blank_end(ls: Seq<Seq<char>>) -> Seq<Seq<char>> {
    if ls.len() > 0 && ls.last().len() == 0 {
        ls.drop_last()
    } else {
        ls
    }
}

/// The markdown report: a title, then the items grouped by file, files in
/// the order of their paths, items of a file in the order found.
pub open spec fn markdown_text(items: Seq<ItemView>) -> Seq<char> {
    if items.len() == 0 {
        s_no_items()
    } else {
        join(
            drop_blank_end(
                seq![s_md_title(), Seq::<char>::empty()] + groups_lines(
                    items,
                    file_order(items),
                    file_order(items).len(),
                ),
            ),
            s_newline(),
        )
    }
}

/// The files of `items`, each once, in the order of `String`.
fn sorted_files(items: &[TodoItem]) -> (r: Vec<Vec<char>>)
    ensures
        seqs_of(r@) == file_order(item_views(items@)),
{
    let ghost v = item_views(items@);
    let mut fs: Vec<Vec<char>> = Vec::new();
    let mut k: usize = 0;
    while k < items.len()
        invariant
            k <= items.len(),
            v == item_views(items@),
            strictly_sorted(seqs_of(fs@)),
            forall|f: Seq<char>| seqs_of(fs@).contains(f) <==> exists|i: int| 0 <= i < k && #[trigger] v[i].file == f,
        decreases items.len() - k,
    {
        let f = chars_of(items[k].file.as_str());
        let ghost before = seqs_of(fs@);
        insert_sorted(&mut fs, f);
        assert forall|g: Seq<char>| seqs_of(fs@).contains(g) <==> exists|i: int| 0 <= i < k + 1 && #[trigger] v[i].file == g by {
            if g == v[k as int].file {
            }
            if exists|i: int| 0 <= i < k + 1 && #[trigger] v[i].file == g {
                let i = choose|i: int| 0 <= i < k + 1 && #[trigger] v[i].file == g;
                if i < k {
                    assert(before.contains(g));
                }
            }
        }
        k = k + 1;
    }
    proof {
        assert(is_file_order(v, seqs_of(fs@)));
        let c = file_order(v);
        lemma_sorted_unique(seqs_of(fs@), c);
    }
    fs
}

fn markdown_item_chars(item: &TodoItem) -> (r: Vec<char>)
    ensures
        r@ == markdown_item(item@),
{
    let mut out = v_md_bullet();
    push_all(&mut out, tag_chars(item.tag).as_slice());
    push_all(&mut out, v_md_bold_close().as_slice());
    match &item.author {
        Some(a) => {
            push_all(&mut out, v_paren_open().as_slice());
            push_all(&mut out, chars_of(a.as_str()).as_slice());
            push_all(&mut out, v_paren_close().as_slice());
        },
        None => {},
    }
    push_all(&mut out, v_md_line_open().as_slice());
    push_all(&mut out, decimal_chars(item.line).as_slice());
    push_all(&mut out, v_md_line_close().as_slice());
    push_all(&mut out, chars_of(item.message.as_str()).as_slice());
    proof {
        let author = match item@.author {
            Some(a) => s_paren_open() + a + s_paren_close(),
            None => Seq::empty(),
        };
        assert(out@ =~= markdown_item(item@));
    }
    out
}

fn push_line(lines: &mut Vec<Vec<char>>, l: Vec<char>)
    ensures
        seqs_of(final(lines)@) == seqs_of(old(lines)@).push(l@),
{
    lines.push(l);
    assert(seqs_of(lines@) =~= seqs_of(old(lines)@).push(l@));
}

fn format_markdown(items: &[TodoItem]) -> (r: String)
    ensures
        r@ == markdown_text(item_views(items@)),
{
    string_from_chars(markdown_chars(items).as_slice())
}

fn markdown_chars(items: &[TodoItem]) -> (r: Vec<char>)
    ensures
        r@ == markdown_text(item_views(items@)),
{
    if items.len() == 0 {
        return v_no_items();
    }
    let ghost v = item_views(items@);
    let fs = sorted_files(items);
    let ghost order = seqs_of(fs@);
    let mut lines: Vec<Vec<char>> = Vec::new();
    push_line(&mut lines, v_md_title());
    push_line(&mut lines, Vec::new());
    let ghost head = seqs_of(lines@);
    assert(head =~= seq![s_md_title(), Seq::<char>::empty()]);
    let mut j: usize = 0;
    while j < fs.len()
        invariant
            j <= fs.len(),
            v == item_views(items@),
            order == seqs_of(fs@),
            head == seq![s_md_title(), Seq::<char>::empty()],
            seqs_of(lines@) == head + groups_lines(v, order, j as nat),
        decreases fs.len() - j,
    {
        let ghost before = seqs_of(lines@);
        let mut heading = v_md_file_open();
        push_all(&mut heading, fs[j].as_slice());
        push_all(&mut heading, v_md_file_close().as_slice());
        push_line(&mut lines, heading);
        push_line(&mut lines, Vec::new());
        let mut k: usize = 0;
        while k < items.len()
            invariant
                j < fs.len(),
                k <= items.len(),
                v == item_views(items@),
                order == seqs_of(fs@),
                seqs_of(lines@) == before + seq![s_md_file_open() + order[j as int] + s_md_file_close(), Seq::<char>::empty()] + file_lines(v, order[j as int], k as nat),
            decreases items.len() - k,
        {
            let f = chars_of(items[k].file.as_str());
            if equals_chars(&f, &fs[j]) {
                let ghost mid = seqs_of(lines@);
                push_line(&mut lines, markdown_item_chars(&items[k]));
                assert(seqs_of(lines@) =~= before + seq![s_md_file_open() + order[j as int] + s_md_file_close(), Seq::<char>::empty()] + file_lines(v, order[j as int], (k + 1) as nat));
            }
            k = k + 1;
        }
        push_line(&mut lines, Vec::new());
        assert(seqs_of(lines@) =~= head + groups_lines(v, order, (j + 1) as nat));
        j = j + 1;
    }
    let ghost all = seqs_of(lines@);
    if lines.len() > 0 && lines[lines.len() - 1].len() == 0 {
        lines.pop();
        assert(seqs_of(lines@) =~= all.drop_last());
    }
    join_lines(&lines, v_newline().as_slice())
}

} // verus!

verus! {

// ------------------------------------------------------------------ table

/// Where a file path longer than 38 bytes is cut: the character from which
/// its last 38 bytes start.
pub open spec fn file_cut(f: Seq<char>) -> int {
    choose|k: int| 0 <= k <= f.len() && byte_len(f.skip(k)) == 38
}

/// Whether a path longer than 38 bytes has a character starting 38 bytes
/// before its end (else the table's byte slicing of the path panics).
pub open spec fn cut_on_boundary(f: Seq<char>) -> bool {
    byte_len(f) > 38 ==> exists|k: int| 0 <= k <= f.len() && byte_len(f.skip(k)) == 38
}

/// The path as a table shows it: longer than 38 bytes, its last 38 bytes after `..`.
pub open spec fn shown_file(f: Seq<char>) -> Seq<char> {
    if byte_len(f) > 38 {
        s_dots() + f.skip(file_cut(f))
    } else {
        f
    }
}

/// The author, or `-` when there is none.
pub open spec fn author_or_dash(a: Option<Seq<char>>) -> Seq<char> {
    match a {
        Some(a) => a,
        None => s_dash(),
    }
}

/// An item's row of a table, with `cell` showing its tag: file, line, tag
/// and author padded to 40, 6, 10 and 12 characters, then the message.
pub open spec fn table_row(it: ItemView, cell: Seq<char>) -> Seq<char> {
    pad(shown_file(it.file), 40) + s_space() + pad(decimal(it.line), 6) + s_space() + pad(cell, 10)
        + s_space() + pad(author_or_dash(it.author), 12) + s_space() + it.message
}

/// The table: the heading line, then one row per item.
pub open spec fn table_text(items: Seq<ItemView>, heading: Seq<char>, cells: Seq<Seq<char>>) -> Seq<char> {
    join(
        seq![heading] + Seq::new(items.len(), |i: int| table_row(items[i], cells[i])),
        s_newline(),
    )
}

/// The heading line made of the five column headings.
pub open spec fn heading_of(
    c1: Seq<char>,
    c2: Seq<char>,
    c3: Seq<char>,
    c4: Seq<char>,
    c5: Seq<char>,
) -> Seq<char> {
    c1 + s_space() + c2 + s_space() + c3 + s_space() + c4 + s_space() + c5
}

/// Whether `h` is the table's heading line: `File`, `Line`, `Tag`, `Author`
/// padded to 40, 6, 10 and 12 characters, then `Message`, each plain or in
/// bold underline.
pub open spec fn heading_shown(h: Seq<char>) -> bool {
    exists|c1: Seq<char>, c2: Seq<char>, c3: Seq<char>, c4: Seq<char>, c5: Seq<char>|
        {
            &&& plain_or_painted(c1, pad(s_file_label(), 40), seq!['1', ';', '4'])
            &&& plain_or_painted(c2, pad(s_line_label(), 6), seq!['1', ';', '4'])
            &&& plain_or_painted(c3, pad(s_tag_label(), 10), seq!['1', ';', '4'])
            &&& plain_or_painted(c4, pad(s_author_label(), 12), seq!['1', ';', '4'])
            &&& plain_or_painted(c5, s_message_label(), seq!['1', ';', '4'])
            &&& h == #[trigger] heading_of(c1, c2, c3, c4, c5)
        }
}

/// Whether `out` is the table of `items`: a heading line and one row per
/// item, each tag shown in its colour or plain.
pub open spec fn table_shown(items: Seq<ItemView>, out: Seq<char>) -> bool {
    exists|heading: Seq<char>, cells: Seq<Seq<char>>|
        {
            &&& heading_shown(heading)
            &&& cells.len() == items.len()
            &&& forall|i: int| 0 <= i < items.len() ==> tag_cell(items[i].tag, #[trigger] cells[i])
            &&& out == #[trigger] table_text(items, heading, cells)
        }
}

fn shown_file_chars(f: &Vec<char>) -> (r: Vec<char>)
    requires
        cut_on_boundary(f@),
    ensures
        r@ == shown_file(f@),
{
    let mut j: usize = f.len();
    let mut acc: usize = 0;
    assert(f@.skip(f.len() as int) =~= Seq::<char>::empty());
    while j > 0 && acc < 38
        invariant
            j <= f.len(),
            acc == byte_len(f@.skip(j as int)),
            acc < 42,
            j < f.len() ==> byte_len(f@.skip(j + 1)) < 38,
        decreases j,
    {
        let w = utf8_width_of(f[j - 1]);
        assert(f@.skip(j - 1).drop_first() =~= f@.skip(j as int));
        assert(f@.skip(j - 1)[0] == f@[j - 1]);
        acc = acc + w;
        j = j - 1;
    }
    assert(f@.skip(0) =~= f@);
    proof {
        lemma_byte_len_skip(f@, 0, j as int);
    }
    if acc == 38 && j > 0 {
        proof {
            let k = file_cut(f@);
            assert(0 <= j <= f@.len() && byte_len(f@.skip(j as int)) == 38);
            if k < j {
                lemma_byte_len_skip(f@, k, j as int);
            } else if k > j {
                lemma_byte_len_skip(f@, j as int, k);
            }
            assert(k == j);
        }
        let mut out = v_dots();
        let mut i = j;
        while i < f.len()
            invariant
                j <= i <= f.len(),
                out@ == s_dots() + f@.subrange(j as int, i as int),
            decreases f.len() - i,
        {
            out.push(f[i]);
            assert(f@.subrange(j as int, i + 1) =~= f@.subrange(j as int, i as int).push(f@[i as int]));
            i = i + 1;
        }
        assert(f@.subrange(j as int, f.len() as int) =~= f@.skip(j as int));
        out
    } else if acc <= 38 {
        let mut out: Vec<char> = Vec::new();
        push_all(&mut out, f.as_slice());
        out
    } else {
        proof {
            let k = choose|k: int| 0 <= k <= f@.len() && byte_len(f@.skip(k)) == 38;
            if k <= j {
                lemma_byte_len_skip(f@, k, j as int);
            } else {
                lemma_byte_len_skip(f@, j + 1, k);
            }
        }
        Vec::new()
    }
}

fn table_row_chars(item: &TodoItem, cell: &String) -> (r: Vec<char>)
    requires
        cut_on_boundary(item.file@),
    ensures
        r@ == table_row(item@, cell@),
{
    let mut out: Vec<char> = Vec::new();
    let shown = shown_file_chars(&chars_of(item.file.as_str()));
    push_padded(&mut out, shown.as_slice(), 40);
    push_all(&mut out, v_space().as_slice());
    push_padded(&mut out, decimal_chars(item.line).as_slice(), 6);
    push_all(&mut out, v_space().as_slice());
    push_padded(&mut out, chars_of(cell.as_str()).as_slice(), 10);
    push_all(&mut out, v_space().as_slice());
    match &item.author {
        Some(a) => push_padded(&mut out, chars_of(a.as_str()).as_slice(), 12),
        None => push_padded(&mut out, v_dash().as_slice(), 12),
    }
    push_all(&mut out, v_space().as_slice());
    push_all(&mut out, chars_of(item.message.as_str()).as_slice());
    assert(out@ =~= table_row(item@, cell@));
    out
}

/// The table of `items`, with the given heading line and tag cells.
pub fn render_table(items: &[TodoItem], heading: &[char], cells: &[String]) -> (r: String)
    requires
        cells.len() == items.len(),
        forall|i: int| 0 <= i < items.len() ==> cut_on_boundary(#[trigger] items[i].file@),
    ensures
        r@ == table_text(item_views(items@), heading@, cells@.map_values(|c: String| c@)),
{
    let ghost v = item_views(items@);
    let ghost cv = cells@.map_values(|c: String| c@);
    let mut lines: Vec<Vec<char>> = Vec::new();
    let mut first: Vec<char> = Vec::new();
    push_all(&mut first, heading);
    push_line(&mut lines, first);
    assert(seqs_of(lines@) =~= seq![heading@] + Seq::new(0 as nat, |i: int| table_row(v[i], cv[i])));
    let mut k: usize = 0;
    while k < items.len()
        invariant
            k <= items.len(),
            cells.len() == items.len(),
            v == item_views(items@),
            cv == cells@.map_values(|c: String| c@),
            forall|i: int| 0 <= i < items.len() ==> cut_on_boundary(#[trigger] items[i].file@),
            seqs_of(lines@) == seq![heading@] + Seq::new(k as nat, |i: int| table_row(v[i], cv[i])),
        decreases items.len() - k,
    {
        let row = table_row_chars(&items[k], &cells[k]);
        let ghost before = seqs_of(lines@);
        assert(v[k as int] == items@[k as int]@);
        assert(cv[k as int] == cells@[k as int]@);
        push_line(&mut lines, row);
        assert(seqs_of(lines@) =~= seq![heading@] + Seq::new((k + 1) as nat, |i: int| table_row(v[i], cv[i])));
        k = k + 1;
    }
    assert(Seq::new(items.len() as nat, |i: int| table_row(v[i], cv[i])) =~= Seq::new(v.len(), |i: int| table_row(v[i], cv[i])));
    let out = join_lines(&lines, v_newline().as_slice());
    string_from_chars(out.as_slice())
}

proof fn lemma_escape_free(s: Seq<char>)
    requires
        forall|i: int| 0 <= i < s.len() ==> s[i] != '\x1b',
    ensures
        escape_free(s),
{
}

fn heading_line() -> (r: Vec<char>)
    ensures
        heading_shown(r@),
{
    let l1 = str_file_label();
    let l2 = str_line_label();
    let l3 = str_tag_label();
    let l4 = str_author_label();
    let l5 = str_message_label();
    proof {
        lemma_escape_free(s_file_label());
        lemma_escape_free(s_line_label());
        lemma_escape_free(s_tag_label());
        lemma_escape_free(s_author_label());
        lemma_escape_free(s_message_label());
    }
    let c1 = paint_heading(l1, 40);
    let c2 = paint_heading(l2, 6);
    let c3 = paint_heading(l3, 10);
    let c4 = paint_heading(l4, 12);
    let c5 = paint_heading(l5, 0);
    assert(pad(s_message_label(), 0) =~= s_message_label());
    let mut out: Vec<char> = Vec::new();
    push_all(&mut out, chars_of(c1.as_str()).as_slice());
    push_all(&mut out, v_space().as_slice());
    push_all(&mut out, chars_of(c2.as_str()).as_slice());
    push_all(&mut out, v_space().as_slice());
    push_all(&mut out, chars_of(c3.as_str()).as_slice());
    push_all(&mut out, v_space().as_slice());
    push_all(&mut out, chars_of(c4.as_str()).as_slice());
    push_all(&mut out, v_space().as_slice());
    push_all(&mut out, chars_of(c5.as_str()).as_slice());
    assert(out@ =~= heading_of(c1@, c2@, c3@, c4@, c5@));
    out
}

fn format_table(items: &[TodoItem]) -> (r: String)
    requires
        forall|i: int| 0 <= i < items.len() ==> cut_on_boundary(#[trigger] items[i].file@),
    ensures
        items.len() == 0 ==> r@ == s_no_items(),
        items.len() > 0 ==> table_shown(item_views(items@), r@),
{
    if items.len() == 0 {
        return string_from_chars(v_no_items().as_slice());
    }
    let heading = heading_line();
    let mut cells: Vec<String> = Vec::new();
    let mut k: usize = 0;
    while k < items.len()
        invariant
            k <= items.len(),
            cells.len() == k,
            forall|i: int| 0 <= i < k ==> tag_cell(items[i].tag, #[trigger] cells@[i]@),
        decreases items.len() - k,
    {
        let c = colorize_tag(&items[k].tag);
        cells.push(c);
        k = k + 1;
    }
    let r = render_table(items, heading.as_slice(), cells.as_slice());
    proof {
        let cv = cells@.map_values(|c: String| c@);
        let v = item_views(items@);
        assert forall|i: int| 0 <= i < v.len() implies tag_cell(v[i].tag, #[trigger] cv[i]) by {
            assert(cv[i] == cells@[i]@);
        }
        assert(table_shown(v, r@));
    }
    r
}

} // verus!

verus! {

// ----------------------------------------------------------------- report

/// Whether the table of `items` can be shown: every path longer than 38
/// bytes has a character boundary 38 bytes before its end.
pub open spec fn table_printable(items: Seq<TodoItem>) -> bool {
    forall|i: int| 0 <= i < items.len() ==> cut_on_boundary(#[trigger] items[i].file@)
}

/// Format and report TODO items in the specified output format.
///
/// Returns the text of a table, markdown or summary report. JSON is not
/// composed here: for `OutputFormat::Json` the result is `None`, and the
/// items are serialised as they are.
pub fn report(items: &[TodoItem], format: &OutputFormat) -> (r: Option<String>)
    requires
        *format == OutputFormat::Table ==> table_printable(items@),
    ensures
        match *format {
            OutputFormat::Table => r matches Some(t) && (items.len() == 0 ==> t@ == s_no_items())
                && (items.len() > 0 ==> table_shown(item_views(items@), t@)),
            OutputFormat::Json => r is None,
            OutputFormat::Markdown => r matches Some(t) && t@ == markdown_text(item_views(items@)),
            OutputFormat::Summary => r matches Some(t) && t@ == summary_text(item_views(items@)),
        },
{
    match format {
        OutputFormat::Table => Some(format_table(items)),
        OutputFormat::Json => None,
        OutputFormat::Markdown => Some(format_markdown(items)),
        OutputFormat::Summary => Some(format_summary(items)),
    }
}

// ---------------------------------------------------------- tag selection

/// Whether tag `t` is one of `wanted`, compared upper-cased.
pub open spec fn tag_wanted(t: Tag, wanted: Seq<Seq<char>>) -> bool {
    exists|j: int| 0 <= j < wanted.len() && uppercase_of(#[trigger] wanted[j]) == tag_name(t)
}

/// Those of the first `k` items whose tag is wanted, in order.
pub open spec fn kept(items: Seq<ItemView>, wanted: Seq<Seq<char>>, k: nat) -> Seq<ItemView>
    decreases k,
{
    if k == 0 || k > items.len() {
        Seq::empty()
    } else {
        let prev = kept(items, wanted, (k - 1) as nat);
        if tag_wanted(items[k - 1].tag, wanted) {
            prev.push(items[k - 1])
        } else {
            prev
        }
    }
}

/// The items whose tag is among `tags` (any case); all items when `tags` is empty.
pub open spec fn selected(items: Seq<ItemView>, tags: Seq<Seq<char>>) -> Seq<ItemView> {
    if tags.len() == 0 {
        items
    } else {
        kept(items, tags, items.len())
    }
}

/// Keeps the items whose tag is among `tags` (compared upper-cased), in
/// order; keeps all items when `tags` is empty.
pub fn retain_tags(items: Vec<TodoItem>, tags: &Vec<String>) -> (r: Vec<TodoItem>)
    ensures
        item_views(r@) == selected(item_views(items@), strings_of(tags@)),
{
    if tags.len() == 0 {
        return items;
    }
    let ghost w = strings_of(tags@);
    let mut upper: Vec<Vec<char>> = Vec::new();
    let mut j: usize = 0;
    while j < tags.len()
        invariant
            j <= tags.len(),
            w == strings_of(tags@),
            upper.len() == j,
            forall|i: int| 0 <= i < j ==> #[trigger] upper@[i]@ == uppercase_of(w[i]),
        decreases tags.len() - j,
    {
        let u = to_uppercase(tags[j].as_str());
        upper.push(chars_of(u.as_str()));
        j = j + 1;
    }
    let ghost v = item_views(items@);
    let mut out: Vec<TodoItem> = Vec::new();
    for item in it: items
        invariant
            v == item_views(it.seq()),
            w == strings_of(tags@),
            upper.len() == tags.len(),
            forall|i: int| 0 <= i < upper.len() ==> #[trigger] upper@[i]@ == uppercase_of(w[i]),
            item_views(out@) == kept(v, w, it.index() as nat),
    {
        let name = tag_chars(item.tag);
        let mut wanted = false;
        let mut i: usize = 0;
        while i < upper.len()
            invariant
                i <= upper.len(),
                upper.len() == tags.len(),
                name@ == tag_name(item.tag),
                wanted == exists|x: int| 0 <= x < i && uppercase_of(#[trigger] w[x]) == tag_name(item.tag),
                forall|x: int| 0 <= x < upper.len() ==> #[trigger] upper@[x]@ == uppercase_of(w[x]),
            decreases upper.len() - i,
        {
            if equals_chars(&upper[i], &name) {
                wanted = true;
            }
            i = i + 1;
        }
        let ghost before = out@;
        if wanted {
            out.push(item);
            assert(item_views(out@) =~= item_views(before).push(item@));
        }
    }
    out
}

} // verus!

verus! {

/// The counts of all tags over the first `k` items.
pub open spec fn all_counts(items: Seq<ItemView>, k: nat) -> nat {
    count_tag(items, Tag::Bug, k) + count_tag(items, Tag::Fixme, k) + count_tag(items, Tag::Hack, k)
        + count_tag(items, Tag::Note, k) + count_tag(items, Tag::Optimize, k) + count_tag(
        items,
        Tag::Todo,
        k,
    ) + count_tag(items, Tag::Warn, k) + count_tag(items, Tag::Xxx, k)
}

/// The counts of a summary add up to its total: every item has exactly one tag.
pub proof fn lemma_counts_add_up(items: Seq<ItemView>, k: nat)
    requires
        k <= items.len(),
    ensures
        all_counts(items, k) == k,
    decreases k,
{
    if k > 0 {
        lemma_counts_add_up(items, (k - 1) as nat);
    }
}

/// A summary lists the tags in the order of their names.
pub proof fn lemma_summary_order_sorted()
    ensures
        strictly_sorted(summary_order().map_values(|t: Tag| tag_name(t))),
{
    let names = summary_order().map_values(|t: Tag| tag_name(t));
    assert forall|i: int, j: int| 0 <= i < j < names.len() implies lex_lt(#[trigger] names[i], #[trigger] names[j]) by {
        assert(names[i] == tag_name(summary_order()[i]));
        assert(names[j] == tag_name(summary_order()[j]));
        assert(names[i][0] < names[j][0]);
    }
}

} // verus!

verus! {

/// The number of item lines in the groups of the first `j` files of `fs`,
/// counting among the first `k` items.
pub open spec fn listed(items: Seq<ItemView>, fs: Seq<Seq<char>>, k: nat, j: nat) -> nat
    decreases j,
{
    if j == 0 || j > fs.len() {
        0
    } else {
        listed(items, fs, k, (j - 1) as nat) + file_lines(items, fs[j - 1], k).len()
    }
}

proof fn lemma_listed_step(items: Seq<ItemView>, fs: Seq<Seq<char>>, k: nat, j: nat)
    requires
        1 <= k <= items.len(),
        j <= fs.len(),
        strictly_sorted(fs),
    ensures
        listed(items, fs, k, j) == listed(items, fs, (k - 1) as nat, j) + if exists|g: int|
            0 <= g < j && fs[g] == items[k - 1].file {
            1nat
        } else {
            0nat
        },
    decreases j,
{
    if j > 0 {
        lemma_listed_step(items, fs, k, (j - 1) as nat);
        let f = items[k - 1].file;
        if fs[j - 1] == f {
            assert forall|g: int| 0 <= g < j - 1 implies fs[g] != f by {
                assert(lex_lt(fs[g], fs[j - 1]));
                lemma_lex_irreflexive(f);
            }
        }
        if exists|g: int| 0 <= g < j && fs[g] == f {
            let g = choose|g: int| 0 <= g < j && fs[g] == f;
            if g < j - 1 {
                assert(exists|g2: int| 0 <= g2 < j - 1 && fs[g2] == f);
            }
        }
    }
}

proof fn lemma_listed_all(items: Seq<ItemView>, fs: Seq<Seq<char>>, k: nat)
    requires
        k <= items.len(),
        is_file_order(items, fs),
    ensures
        listed(items, fs, k, fs.len()) == k,
    decreases k,
{
    if k == 0 {
        lemma_listed_none(items, fs, fs.len());
    } else {
        lemma_listed_all(items, fs, (k - 1) as nat);
        lemma_listed_step(items, fs, k, fs.len());
        let f = items[k - 1].file;
        assert(exists|i: int| 0 <= i < items.len() && #[trigger] items[i].file == f);
        assert(fs.contains(f));
        assert(exists|g: int| 0 <= g < fs.len() && fs[g] == f);
    }
}

proof fn lemma_listed_none(items: Seq<ItemView>, fs: Seq<Seq<char>>, j: nat)
    requires
        j <= fs.len(),
    ensures
        listed(items, fs, 0, j) == 0,
    decreases j,
{
    if j > 0 {
        lemma_listed_none(items, fs, (j - 1) as nat);
    }
}

/// A markdown report lists every item exactly once: its groups hold as many
/// item lines as there are items, each group only items of its own file.
pub proof fn lemma_markdown_lists_each_item_once(items: Seq<ItemView>)
    ensures
        listed(items, file_order(items), items.len(), file_order(items).len()) == items.len(),
{
    lemma_file_order_exists(items);
    lemma_listed_all(items, file_order(items), items.len());
}

/// Some sequence lists the files of `items` once each, in order; `file_order` is one.
pub proof fn lemma_file_order_exists(items: Seq<ItemView>) -> (fs: Seq<Seq<char>>)
    ensures
        is_file_order(items, fs),
        is_file_order(items, file_order(items)),
    decreases items.len(),
{
    if items.len() == 0 {
        let fs = Seq::<Seq<char>>::empty();
        assert(is_file_order(items, fs));
        fs
    } else {
        let prev = lemma_file_order_exists(items.drop_last());
        let f = items.last().file;
        if prev.contains(f) {
            assert forall|g: Seq<char>| prev.contains(g) <==> exists|i: int| 0 <= i < items.len() && #[trigger] items[i].file == g by {
                if prev.contains(g) {
                    let i = choose|i: int| 0 <= i < items.drop_last().len() && #[trigger] items.drop_last()[i].file == g;
                    assert(items[i].file == g);
                }
                if exists|i: int| 0 <= i < items.len() && #[trigger] items[i].file == g {
                    let i = choose|i: int| 0 <= i < items.len() && #[trigger] items[i].file == g;
                    if i < items.len() - 1 {
                        assert(items.drop_last()[i].file == g);
                    }
                }
            }
            assert(is_file_order(items, prev));
            prev
        } else {
            let fs = sorted_insert_spec(prev, f);
            assert forall|g: Seq<char>| fs.contains(g) <==> exists|i: int| 0 <= i < items.len() && #[trigger] items[i].file == g by {
                if prev.contains(g) {
                    let i = choose|i: int| 0 <= i < items.drop_last().len() && #[trigger] items.drop_last()[i].file == g;
                    assert(items[i].file == g);
                }
                if exists|i: int| 0 <= i < items.len() && #[trigger] items[i].file == g {
                    let i = choose|i: int| 0 <= i < items.len() && #[trigger] items[i].file == g;
                    if i < items.len() - 1 {
                        assert(items.drop_last()[i].file == g);
                    }
                }
                if g == f {
                    assert(items[items.len() - 1].file == g);
                }
            }
            assert(is_file_order(items, fs));
            fs
        }
    }
}

} // verus!

verus! {

/// The spaces that `{:<w}` adds after a text of `len` characters.
pub open spec fn fill(len: nat, w: nat) -> nat {
    if len >= w { 0 } else { (w - len) as nat }
}

/// A table row is the file, line, tag cell and author, each written whole and
/// followed by spaces up to its column's width (40, 6, 10 and 12), each column
/// then a space, and last the message.
pub proof fn lemma_table_row_columns(it: ItemView, cell: Seq<char>)
    ensures
        ({
            let f = shown_file(it.file);
            let l = decimal(it.line);
            let a = author_or_dash(it.author);
            table_row(it, cell) == f + crate::text::spaces(fill(f.len(), 40)) + seq![' ']
                + l + crate::text::spaces(fill(l.len(), 6)) + seq![' ']
                + cell + crate::text::spaces(fill(cell.len(), 10)) + seq![' ']
                + a + crate::text::spaces(fill(a.len(), 12)) + seq![' ']
                + it.message
        }),
{
    let f = shown_file(it.file);
    let l = decimal(it.line);
    let a = author_or_dash(it.author);
    assert(pad(f, 40) =~= f + crate::text::spaces(fill(f.len(), 40)));
    assert(pad(l, 6) =~= l + crate::text::spaces(fill(l.len(), 6)));
    assert(pad(cell, 10) =~= cell + crate::text::spaces(fill(cell.len(), 10)));
    assert(pad(a, 12) =~= a + crate::text::spaces(fill(a.len(), 12)));
    assert(s_space() =~= seq![' ']);
}

/// A table row holds the item's whole author (or `-`), padded only with
/// spaces, then a space and the message: padding never shortens the author.
pub proof fn lemma_table_row_keeps_author(it: ItemView, cell: Seq<char>)
    ensures
        exists|pre: Seq<char>, n: nat|
            table_row(it, cell) == pre + author_or_dash(it.author) + crate::text::spaces(n) + seq![' ']
                + it.message,
{
    let a = author_or_dash(it.author);
    let n: nat = if a.len() >= 12 { 0 } else { (12 - a.len()) as nat };
    let pre = pad(shown_file(it.file), 40) + s_space() + pad(decimal(it.line), 6) + s_space() + pad(cell, 10)
        + s_space();
    assert(pad(a, 12) =~= a + crate::text::spaces(n));
    assert(s_space() =~= seq![' ']);
    assert(table_row(it, cell) =~= pre + a + crate::text::spaces(n) + seq![' '] + it.message);
}

} // verus!
