//! Recognition of annotation comments such as `// TODO(alice): fix this`.
//!
//! An annotation line is matched against the grammar
//!
//! ```text
//! (?://|#|/\*|<!--)\s*(TODO|FIXME|HACK|XXX|NOTE|OPTIMIZE|BUG|WARN)\s*(?:\(([^)]*)\))?\s*:?\s*(.*?)(?:\s*-->|\s*\*/)?$
//! ```
//!
//! with leftmost-first semantics: the earliest comment opener that starts an
//! annotation wins, whitespace and the optional author and colon are taken
//! greedily, and the message is the shortest run of non-newline characters
//! after which only an optional closing `-->` or `*/` (with whitespace before
//! it) remains.
use vstd::prelude::*;

use crate::text::{is_ws, is_whitespace, lemma_trim_edges, no_edge_whitespace, trim, trim_bounds, string_from_chars, chars_of, copy_range, equals_chars};
use crate::types::{Tag, TodoItem, ItemView, tag_name};

verus! {

/// Length of the comment opener (`//`, `#`, `/*` or `<!--`) at `p`, or 0.
pub open spec fn opener_len(s: Seq<char>, p: int) -> int {
    if p + 2 <= s.len() && s[p] == '/' && s[p + 1] == '/' {
        2
    } else if p + 1 <= s.len() && s[p] == '#' {
        1
    } else if p + 2 <= s.len() && s[p] == '/' && s[p + 1] == '*' {
        2
    } else if p + 4 <= s.len() && s[p] == '<' && s[p + 1] == '!' && s[p + 2] == '-' && s[p + 3] == '-' {
        4
    } else {
        0
    }
}

/// The end of the run of whitespace that starts at `i`.
pub open spec fn ws_end(s: Seq<char>, i: int) -> int
    decreases s.len() - i,
{
    if 0 <= i < s.len() && is_ws(s[i]) {
        ws_end(s, i + 1)
    } else {
        i
    }
}

/// Whether `name` is written in `s` at `i`.
pub open spec fn word_at(s: Seq<char>, i: int, name: Seq<char>) -> bool {
    0 <= i && i + name.len() <= s.len() && s.subrange(i, i + name.len()) == name
}

/// The tag whose name is written at `i`, tried in the grammar's order.
pub open spec fn tag_at(s: Seq<char>, i: int) -> Option<Tag> {
    if word_at(s, i, tag_name(Tag::Todo)) {
        Some(Tag::Todo)
    } else if word_at(s, i, tag_name(Tag::Fixme)) {
        Some(Tag::Fixme)
    } else if word_at(s, i, tag_name(Tag::Hack)) {
        Some(Tag::Hack)
    } else if word_at(s, i, tag_name(Tag::Xxx)) {
        Some(Tag::Xxx)
    } else if word_at(s, i, tag_name(Tag::Note)) {
        Some(Tag::Note)
    } else if word_at(s, i, tag_name(Tag::Optimize)) {
        Some(Tag::Optimize)
    } else if word_at(s, i, tag_name(Tag::Bug)) {
        Some(Tag::Bug)
    } else if word_at(s, i, tag_name(Tag::Warn)) {
        Some(Tag::Warn)
    } else {
        None
    }
}

/// The first `)` at or after `i`.
pub open spec fn close_paren(s: Seq<char>, i: int) -> Option<int>
    decreases s.len() - i,
{
    if i < 0 || i >= s.len() {
        None
    } else if s[i] == ')' {
        Some(i)
    } else {
        close_paren(s, i + 1)
    }
}

/// The span of the author between parentheses that open at `a`, if any.
pub open spec fn author_span(s: Seq<char>, a: int) -> Option<(int, int)> {
    if 0 <= a < s.len() && s[a] == '(' {
        match close_paren(s, a + 1) {
            Some(c) => Some((a + 1, c)),
            None => None,
        }
    } else {
        None
    }
}

/// Whether what remains from `m` on is whitespace followed by a closing `-->` or `*/`.
pub open spec fn closes_at(s: Seq<char>, m: int) -> bool {
    let e = ws_end(s, m);
    ||| (e + 3 == s.len() && s[e] == '-' && s[e + 1] == '-' && s[e + 2] == '>')
    ||| (e + 2 == s.len() && s[e] == '*' && s[e + 1] == '/')
}

/// Whether the message may end at `m`.
pub open spec fn ending_ok(s: Seq<char>, m: int) -> bool {
    m == s.len() || closes_at(s, m)
}

/// The shortest end, from `m` on and before any newline, at which the message may stop.
pub open spec fn msg_end(s: Seq<char>, m: int) -> Option<int>
    decreases s.len() - m,
{
    if m < 0 || m > s.len() {
        None
    } else if ending_ok(s, m) {
        Some(m)
    } else if m < s.len() && s[m] != '\n' {
        msg_end(s, m + 1)
    } else {
        None
    }
}

/// The parts of a recognised annotation: its tag and the spans of the author
/// and of the message, before trimming.
pub struct Capture {
    pub tag: Tag,
    pub author: Option<(int, int)>,
    pub message: (int, int),
}

/// Where the message starts, after the tag ends at `t`, given the author span.
pub open spec fn message_start(s: Seq<char>, a: int, author: Option<(int, int)>) -> int {
    let v = match author {
        Some(span) => span.1 + 1,
        None => a,
    };
    let b = ws_end(s, v);
    if 0 <= b < s.len() && s[b] == ':' {
        ws_end(s, b + 1)
    } else {
        b
    }
}

/// The annotation whose comment opener starts at `p`, if one does.
pub open spec fn annotation_at(s: Seq<char>, p: int) -> Option<Capture> {
    let o = opener_len(s, p);
    if o == 0 {
        None
    } else {
        let ts = ws_end(s, p + o);
        match tag_at(s, ts) {
            None => None,
            Some(tag) => {
                let a = ws_end(s, ts + tag_name(tag).len());
                let author = author_span(s, a);
                let u = message_start(s, a, author);
                match msg_end(s, u) {
                    Some(m) => Some(Capture { tag, author, message: (u, m) }),
                    None => None,
                }
            },
        }
    }
}

/// The leftmost annotation that starts at or after `p`.
pub open spec fn first_annotation(s: Seq<char>, p: int) -> Option<Capture>
    decreases s.len() - p,
{
    if p < 0 || p >= s.len() {
        None
    } else {
        match annotation_at(s, p) {
            Some(c) => Some(c),
            None => first_annotation(s, p + 1),
        }
    }
}

/// The author of a captured annotation: trimmed, and absent when empty.
pub open spec fn author_of(s: Seq<char>, span: Option<(int, int)>) -> Option<Seq<char>> {
    match span {
        Some((x, y)) => {
            let a = trim(s.subrange(x, y));
            if a.len() == 0 {
                None
            } else {
                Some(a)
            }
        },
        None => None,
    }
}

/// The item that `parse_line` gives for `line` of `file` at line `n`.
pub open spec fn parsed_item(line: Seq<char>, file: Seq<char>, n: nat) -> Option<ItemView> {
    match first_annotation(line, 0) {
        None => None,
        Some(c) => Some(
            ItemView {
                tag: c.tag,
                message: trim(line.subrange(c.message.0, c.message.1)),
                author: author_of(line, c.author),
                file,
                line: n,
                raw_line: line,
            },
        ),
    }
}

} // verus!

verus! {

/// The characters of a tag's name.
pub fn tag_chars(t: Tag) -> (r: Vec<char>)
    ensures
        r@ == tag_name(t),
{
    let r = match t {
        Tag::Todo => vec!['T', 'O', 'D', 'O'],
        Tag::Fixme => vec!['F', 'I', 'X', 'M', 'E'],
        Tag::Hack => vec!['H', 'A', 'C', 'K'],
        Tag::Xxx => vec!['X', 'X', 'X'],
        Tag::Note => vec!['N', 'O', 'T', 'E'],
        Tag::Optimize => vec!['O', 'P', 'T', 'I', 'M', 'I', 'Z', 'E'],
        Tag::Bug => vec!['B', 'U', 'G'],
        Tag::Warn => vec!['W', 'A', 'R', 'N'],
    };
    assert(r@ =~= tag_name(t));
    r
}

/// The tag named `s`, if any.
pub open spec fn tag_named(s: Seq<char>) -> Option<Tag> {
    if s == tag_name(Tag::Todo) {
        Some(Tag::Todo)
    } else if s == tag_name(Tag::Fixme) {
        Some(Tag::Fixme)
    } else if s == tag_name(Tag::Hack) {
        Some(Tag::Hack)
    } else if s == tag_name(Tag::Xxx) {
        Some(Tag::Xxx)
    } else if s == tag_name(Tag::Note) {
        Some(Tag::Note)
    } else if s == tag_name(Tag::Optimize) {
        Some(Tag::Optimize)
    } else if s == tag_name(Tag::Bug) {
        Some(Tag::Bug)
    } else if s == tag_name(Tag::Warn) {
        Some(Tag::Warn)
    } else {
        None
    }
}

/// Each tag is named by its name and by no other tag's: reading back the
/// name a tag is shown with gives the tag.
pub proof fn lemma_tag_name_roundtrip(t: Tag)
    ensures
        tag_named(tag_name(t)) == Some(t),
{
    assert(tag_name(Tag::Todo) != tag_name(Tag::Fixme)) by { assert(tag_name(Tag::Todo).len() != tag_name(Tag::Fixme).len()); }
    assert(tag_name(Tag::Todo) != tag_name(Tag::Hack)) by { assert(tag_name(Tag::Todo)[0] != tag_name(Tag::Hack)[0]); }
    assert(tag_name(Tag::Todo) != tag_name(Tag::Xxx)) by { assert(tag_name(Tag::Todo).len() != tag_name(Tag::Xxx).len()); }
    assert(tag_name(Tag::Todo) != tag_name(Tag::Note)) by { assert(tag_name(Tag::Todo)[0] != tag_name(Tag::Note)[0]); }
    assert(tag_name(Tag::Todo) != tag_name(Tag::Optimize)) by { assert(tag_name(Tag::Todo).len() != tag_name(Tag::Optimize).len()); }
    assert(tag_name(Tag::Todo) != tag_name(Tag::Bug)) by { assert(tag_name(Tag::Todo).len() != tag_name(Tag::Bug).len()); }
    assert(tag_name(Tag::Todo) != tag_name(Tag::Warn)) by { assert(tag_name(Tag::Todo)[0] != tag_name(Tag::Warn)[0]); }
    assert(tag_name(Tag::Fixme) != tag_name(Tag::Hack)) by { assert(tag_name(Tag::Fixme).len() != tag_name(Tag::Hack).len()); }
    assert(tag_name(Tag::Fixme) != tag_name(Tag::Xxx)) by { assert(tag_name(Tag::Fixme).len() != tag_name(Tag::Xxx).len()); }
    assert(tag_name(Tag::Fixme) != tag_name(Tag::Note)) by { assert(tag_name(Tag::Fixme).len() != tag_name(Tag::Note).len()); }
    assert(tag_name(Tag::Fixme) != tag_name(Tag::Optimize)) by { assert(tag_name(Tag::Fixme).len() != tag_name(Tag::Optimize).len()); }
    assert(tag_name(Tag::Fixme) != tag_name(Tag::Bug)) by { assert(tag_name(Tag::Fixme).len() != tag_name(Tag::Bug).len()); }
    assert(tag_name(Tag::Fixme) != tag_name(Tag::Warn)) by { assert(tag_name(Tag::Fixme).len() != tag_name(Tag::Warn).len()); }
    assert(tag_name(Tag::Hack) != tag_name(Tag::Xxx)) by { assert(tag_name(Tag::Hack).len() != tag_name(Tag::Xxx).len()); }
    assert(tag_name(Tag::Hack) != tag_name(Tag::Note)) by { assert(tag_name(Tag::Hack)[0] != tag_name(Tag::Note)[0]); }
    assert(tag_name(Tag::Hack) != tag_name(Tag::Optimize)) by { assert(tag_name(Tag::Hack).len() != tag_name(Tag::Optimize).len()); }
    assert(tag_name(Tag::Hack) != tag_name(Tag::Bug)) by { assert(tag_name(Tag::Hack).len() != tag_name(Tag::Bug).len()); }
    assert(tag_name(Tag::Hack) != tag_name(Tag::Warn)) by { assert(tag_name(Tag::Hack)[0] != tag_name(Tag::Warn)[0]); }
    assert(tag_name(Tag::Xxx) != tag_name(Tag::Note)) by { assert(tag_name(Tag::Xxx).len() != tag_name(Tag::Note).len()); }
    assert(tag_name(Tag::Xxx) != tag_name(Tag::Optimize)) by { assert(tag_name(Tag::Xxx).len() != tag_name(Tag::Optimize).len()); }
    assert(tag_name(Tag::Xxx) != tag_name(Tag::Bug)) by { assert(tag_name(Tag::Xxx)[0] != tag_name(Tag::Bug)[0]); }
    assert(tag_name(Tag::Xxx) != tag_name(Tag::Warn)) by { assert(tag_name(Tag::Xxx).len() != tag_name(Tag::Warn).len()); }
    assert(tag_name(Tag::Note) != tag_name(Tag::Optimize)) by { assert(tag_name(Tag::Note).len() != tag_name(Tag::Optimize).len()); }
    assert(tag_name(Tag::Note) != tag_name(Tag::Bug)) by { assert(tag_name(Tag::Note).len() != tag_name(Tag::Bug).len()); }
    assert(tag_name(Tag::Note) != tag_name(Tag::Warn)) by { assert(tag_name(Tag::Note)[0] != tag_name(Tag::Warn)[0]); }
    assert(tag_name(Tag::Optimize) != tag_name(Tag::Bug)) by { assert(tag_name(Tag::Optimize).len() != tag_name(Tag::Bug).len()); }
    assert(tag_name(Tag::Optimize) != tag_name(Tag::Warn)) by { assert(tag_name(Tag::Optimize).len() != tag_name(Tag::Warn).len()); }
    assert(tag_name(Tag::Bug) != tag_name(Tag::Warn)) by { assert(tag_name(Tag::Bug).len() != tag_name(Tag::Warn).len()); }
}

/// Parse a tag's name into the tag.
pub fn parse_tag(s: &str) -> (r: Option<Tag>)
    ensures
        r == tag_named(s@),
{
    let c = chars_of(s);
    if equals_chars(&c, &tag_chars(Tag::Todo)) {
        Some(Tag::Todo)
    } else if equals_chars(&c, &tag_chars(Tag::Fixme)) {
        Some(Tag::Fixme)
    } else if equals_chars(&c, &tag_chars(Tag::Hack)) {
        Some(Tag::Hack)
    } else if equals_chars(&c, &tag_chars(Tag::Xxx)) {
        Some(Tag::Xxx)
    } else if equals_chars(&c, &tag_chars(Tag::Note)) {
        Some(Tag::Note)
    } else if equals_chars(&c, &tag_chars(Tag::Optimize)) {
        Some(Tag::Optimize)
    } else if equals_chars(&c, &tag_chars(Tag::Bug)) {
        Some(Tag::Bug)
    } else if equals_chars(&c, &tag_chars(Tag::Warn)) {
        Some(Tag::Warn)
    } else {
        None
    }
}

fn opener_len_exec(s: &Vec<char>, p: usize) -> (r: usize)
    requires
        p < s.len(),
    ensures
        r as int == opener_len(s@, p as int),
        r <= 4,
{
    let n = s.len();
    if 2 <= n - p && s[p] == '/' && s[p + 1] == '/' {
        2
    } else if s[p] == '#' {
        1
    } else if 2 <= n - p && s[p] == '/' && s[p + 1] == '*' {
        2
    } else if 4 <= n - p && s[p] == '<' && s[p + 1] == '!' && s[p + 2] == '-' && s[p + 3] == '-' {
        4
    } else {
        0
    }
}

fn ws_end_exec(s: &Vec<char>, i: usize) -> (r: usize)
    requires
        i <= s.len(),
    ensures
        r as int == ws_end(s@, i as int),
        i <= r <= s.len(),
{
    let mut j = i;
    while j < s.len() && is_whitespace(s[j])
        invariant
            i <= j <= s.len(),
            ws_end(s@, j as int) == ws_end(s@, i as int),
        decreases s.len() - j,
    {
        j = j + 1;
    }
    j
}

fn word_at_exec(s: &Vec<char>, i: usize, name: &Vec<char>) -> (r: bool)
    requires
        i <= s.len(),
    ensures
        r == word_at(s@, i as int, name@),
{
    if name.len() <= s.len() - i {
        crate::text::matches_at(s.as_slice(), i, name.as_slice())
    } else {
        false
    }
}

fn tag_at_exec(s: &Vec<char>, i: usize) -> (r: Option<Tag>)
    requires
        i <= s.len(),
    ensures
        r == tag_at(s@, i as int),
{
    if word_at_exec(s, i, &tag_chars(Tag::Todo)) {
        Some(Tag::Todo)
    } else if word_at_exec(s, i, &tag_chars(Tag::Fixme)) {
        Some(Tag::Fixme)
    } else if word_at_exec(s, i, &tag_chars(Tag::Hack)) {
        Some(Tag::Hack)
    } else if word_at_exec(s, i, &tag_chars(Tag::Xxx)) {
        Some(Tag::Xxx)
    } else if word_at_exec(s, i, &tag_chars(Tag::Note)) {
        Some(Tag::Note)
    } else if word_at_exec(s, i, &tag_chars(Tag::Optimize)) {
        Some(Tag::Optimize)
    } else if word_at_exec(s, i, &tag_chars(Tag::Bug)) {
        Some(Tag::Bug)
    } else if word_at_exec(s, i, &tag_chars(Tag::Warn)) {
        Some(Tag::Warn)
    } else {
        None
    }
}

fn close_paren_exec(s: &Vec<char>, i: usize) -> (r: Option<usize>)
    requires
        i <= s.len(),
    ensures
        match r {
            Some(c) => close_paren(s@, i as int) == Some(c as int) && i <= c < s.len(),
            None => close_paren(s@, i as int) is None,
        },
{
    let mut j = i;
    while j < s.len()
        invariant
            i <= j <= s.len(),
            close_paren(s@, j as int) == close_paren(s@, i as int),
        decreases s.len() - j,
    {
        if s[j] == ')' {
            return Some(j);
        }
        j = j + 1;
    }
    None
}

fn closes_at_exec(s: &Vec<char>, m: usize) -> (r: bool)
    requires
        m <= s.len(),
    ensures
        r == closes_at(s@, m as int),
{
    let e = ws_end_exec(s, m);
    let n = s.len();
    (n - e == 3 && s[e] == '-' && s[e + 1] == '-' && s[e + 2] == '>') || (n - e == 2 && s[e]
        == '*' && s[e + 1] == '/')
}

fn msg_end_exec(s: &Vec<char>, m: usize) -> (r: Option<usize>)
    requires
        m <= s.len(),
    ensures
        match r {
            Some(e) => msg_end(s@, m as int) == Some(e as int) && m <= e <= s.len(),
            None => msg_end(s@, m as int) is None,
        },
{
    let mut j = m;
    loop
        invariant
            m <= j <= s.len(),
            msg_end(s@, j as int) == msg_end(s@, m as int),
        decreases s.len() - j,
    {
        if j == s.len() || closes_at_exec(s, j) {
            return Some(j);
        }
        if j < s.len() && s[j] != '\n' {
            j = j + 1;
        } else {
            return None;
        }
    }
}

/// The spans of an optional pair of bounds.
pub open spec fn span_view(o: Option<(usize, usize)>) -> Option<(int, int)> {
    match o {
        Some((x, y)) => Some((x as int, y as int)),
        None => None,
    }
}

fn annotation_at_exec(s: &Vec<char>, p: usize) -> (r: Option<(Tag, Option<(usize, usize)>, usize, usize)>)
    requires
        p < s.len(),
    ensures
        match r {
            None => annotation_at(s@, p as int) is None,
            Some((tag, author, u, m)) => {
                &&& annotation_at(s@, p as int) == Some(
                    Capture { tag, author: span_view(author), message: (u as int, m as int) },
                )
                &&& u <= m <= s.len()
                &&& (author matches Some((x, y)) ==> x <= y <= s.len())
            },
        },
{
    let o = opener_len_exec(s, p);
    if o == 0 {
        return None;
    }
    let ts = ws_end_exec(s, p + o);
    let matched = match tag_at_exec(s, ts) {
        Some(t) => t,
        None => return None,
    };
    let len = tag_chars(matched).len();
    let word = string_from_chars(copy_range(s, ts, ts + len).as_slice());
    proof {
        lemma_tag_name_roundtrip(matched);
    }
    let tag = match parse_tag(word.as_str()) {
        Some(t) => t,
        None => return None,
    };
    assert(tag == matched);
    let a = ws_end_exec(s, ts + len);
    let author: Option<(usize, usize)> = if a < s.len() && s[a] == '(' {
        match close_paren_exec(s, a + 1) {
            Some(c) => Some((a + 1, c)),
            None => None,
        }
    } else {
        None
    };
    assert(span_view(author) == author_span(s@, a as int));
    let v = match author {
        Some((_, c)) => c + 1,
        None => a,
    };
    let b = ws_end_exec(s, v);
    let u = if b < s.len() && s[b] == ':' {
        ws_end_exec(s, b + 1)
    } else {
        b
    };
    assert(u as int == message_start(s@, a as int, span_view(author)));
    match msg_end_exec(s, u) {
        Some(m) => Some((tag, author, u, m)),
        None => None,
    }
}

/// Parse a single line of source code for a TODO-style annotation.
///
/// Returns the item for the leftmost annotation in `line` (see the module's
/// grammar), with trimmed message and author, or `None` if there is none.
pub fn parse_line(line: &str, file: &str, line_number: usize) -> (r: Option<TodoItem>)
    ensures
        match parsed_item(line@, file@, line_number as nat) {
            None => r is None,
            Some(v) => r matches Some(item) && item@ == v,
        },
{
    let s = chars_of(line);
    let mut p: usize = 0;
    while p < s.len()
        invariant
            p <= s.len(),
            s@ == line@,
            first_annotation(s@, p as int) == first_annotation(s@, 0),
        decreases s.len() - p,
    {
        match annotation_at_exec(&s, p) {
            Some((tag, author_span, u, m)) => {
                let (ma, mb) = trim_bounds(&s, u, m);
                let message = string_from_chars(copy_range(&s, ma, mb).as_slice());
                let author = match author_span {
                    Some((x, y)) => {
                        let (aa, ab) = trim_bounds(&s, x, y);
                        if aa == ab {
                            None
                        } else {
                            Some(string_from_chars(copy_range(&s, aa, ab).as_slice()))
                        }
                    },
                    None => None,
                };
                let item = TodoItem {
                    tag,
                    message,
                    author,
                    file: file.to_owned(),
                    line: line_number,
                    raw_line: line.to_owned(),
                };
                return Some(item);
            },
            None => {},
        }
        p = p + 1;
    }
    None
}

} // verus!

verus! {

/// What `parse_line` finds is trimmed: the message has no whitespace at
/// either end, and an author is non-empty with no whitespace at either end.
pub proof fn lemma_parsed_item_trimmed(line: Seq<char>, file: Seq<char>, n: nat)
    ensures
        parsed_item(line, file, n) matches Some(v) ==> {
            &&& no_edge_whitespace(v.message)
            &&& (v.author matches Some(a) ==> a.len() > 0 && no_edge_whitespace(a))
        },
{
    if let Some(c) = first_annotation(line, 0) {
        lemma_trim_edges(line.subrange(c.message.0, c.message.1));
        if let Some((x, y)) = c.author {
            lemma_trim_edges(line.subrange(x, y));
        }
    }
}

/// What `parse_line` finds records the line it was read from, its file and its number.
pub proof fn lemma_parsed_item_records_line(line: Seq<char>, file: Seq<char>, n: nat)
    ensures
        parsed_item(line, file, n) matches Some(v) ==> v.raw_line == line && v.file == file && v.line == n,
{
}

} // verus!

verus! {

/// Whether `o` is one of the comment openers.
pub open spec fn is_opener(o: Seq<char>) -> bool {
    ||| o == seq!['/', '/']
    ||| o == seq!['#']
    ||| o == seq!['/', '*']
    ||| o == seq!['<', '!', '-', '-']
}

/// Whether `s` ends with `suffix`.
pub open spec fn ends_with(s: Seq<char>, suffix: Seq<char>) -> bool {
    s.len() >= suffix.len() && s.subrange(s.len() - suffix.len(), s.len() as int) == suffix
}

/// A message that reads back as written: one line, no whitespace at either
/// end, and not ending like a closing `-->` or `*/`.
pub open spec fn plain_message(m: Seq<char>) -> bool {
    &&& !m.contains('\n')
    &&& no_edge_whitespace(m)
    &&& !ends_with(m, seq!['-', '-', '>'])
    &&& !ends_with(m, seq!['*', '/'])
}

/// An author that reads back as written: non-empty, without `)`, and with no
/// whitespace at either end.
pub open spec fn plain_author(a: Seq<char>) -> bool {
    a.len() > 0 && !a.contains(')') && no_edge_whitespace(a)
}

/// The annotation line `<opener> TAG(author): message`, the author part
/// left out when there is none.
pub open spec fn written_annotation(o: Seq<char>, t: Tag, author: Option<Seq<char>>, m: Seq<char>) -> Seq<char> {
    let a = match author {
        Some(a) => seq!['('] + a + seq![')'],
        None => Seq::empty(),
    };
    o + seq![' '] + tag_name(t) + a + seq![':', ' '] + m
}

proof fn lemma_ws_end_bounds(s: Seq<char>, i: int)
    requires
        0 <= i <= s.len(),
    ensures
        i <= ws_end(s, i) <= s.len(),
        forall|k: int| i <= k < ws_end(s, i) ==> is_ws(s[k]),
    decreases s.len() - i,
{
    if i < s.len() && is_ws(s[i]) {
        lemma_ws_end_bounds(s, i + 1);
    }
}

proof fn lemma_close_paren_at(s: Seq<char>, i: int, c: int)
    requires
        0 <= i <= c < s.len(),
        s[c] == ')',
        forall|k: int| i <= k < c ==> s[k] != ')',
    ensures
        close_paren(s, i) == Some(c),
    decreases c - i,
{
    if i < c {
        lemma_close_paren_at(s, i + 1, c);
    }
}

proof fn lemma_msg_end_at_len(s: Seq<char>, u: int)
    requires
        0 <= u <= s.len(),
        forall|j: int| u <= j < s.len() ==> s[j] != '\n' && !closes_at(s, j),
    ensures
        msg_end(s, u) == Some(s.len() as int),
    decreases s.len() - u,
{
    if u < s.len() {
        lemma_msg_end_at_len(s, u + 1);
    }
}

proof fn lemma_trim_plain(s: Seq<char>)
    requires
        no_edge_whitespace(s),
    ensures
        trim(s) == s,
{
}

proof fn lemma_word_absent(s: Seq<char>, i: int, name: Seq<char>)
    requires
        0 <= i < s.len(),
        name.len() > 0,
        s[i] != name[0],
    ensures
        !word_at(s, i, name),
{
    if word_at(s, i, name) {
        assert(s.subrange(i, i + name.len())[0] == s[i]);
    }
}

proof fn lemma_tag_read(s: Seq<char>, o: Seq<char>, t: Tag)
    requires
        is_opener(o),
        s.len() > o.len() + 1 + tag_name(t).len(),
        forall|k: int| 0 <= k < o.len() ==> s[k] == o[k],
        s[o.len() as int] == ' ',
        forall|k: int| 0 <= k < tag_name(t).len() ==> s[o.len() + 1 + k] == tag_name(t)[k],
    ensures
        opener_len(s, 0) == o.len(),
        ws_end(s, o.len() as int) == o.len() + 1,
        tag_at(s, o.len() as int + 1) == Some(t),
{
    let ts: int = o.len() as int + 1;
    let name = tag_name(t);
    assert(s[ts] == name[0]);
    assert(ws_end(s, ts) == ts);
    assert(s.subrange(ts, ts + name.len()) =~= name);
    assert(word_at(s, ts, name));
    if t != Tag::Todo { lemma_word_absent(s, ts, tag_name(Tag::Todo)); }
    if t != Tag::Fixme { lemma_word_absent(s, ts, tag_name(Tag::Fixme)); }
    if t != Tag::Hack { lemma_word_absent(s, ts, tag_name(Tag::Hack)); }
    if t != Tag::Xxx { lemma_word_absent(s, ts, tag_name(Tag::Xxx)); }
    if t != Tag::Note { lemma_word_absent(s, ts, tag_name(Tag::Note)); }
    if t != Tag::Optimize { lemma_word_absent(s, ts, tag_name(Tag::Optimize)); }
    if t != Tag::Bug { lemma_word_absent(s, ts, tag_name(Tag::Bug)); }
}

proof fn lemma_message_read(s: Seq<char>, v: int, m: Seq<char>)
    requires
        0 <= v,
        s.len() == v + 2 + m.len(),
        s[v] == ':',
        s[v + 1] == ' ',
        forall|k: int| 0 <= k < m.len() ==> s[v + 2 + k] == m[k],
        plain_message(m),
    ensures
        ws_end(s, v) == v,
        ws_end(s, v + 1) == v + 2,
        msg_end(s, v + 2) == Some(s.len() as int),
        s.subrange(v + 2, s.len() as int) == m,
{
    let u = v + 2;
    assert(ws_end(s, u) == u) by {
        if m.len() > 0 {
            assert(s[u] == m[0]);
        }
    }
    assert forall|j: int| u <= j < s.len() implies s[j] != '\n' && !closes_at(s, j) by {
        assert(s[j] == m[j - u]);
        if s[j] == '\n' {
            assert(m.contains('\n'));
        }
        lemma_ws_end_bounds(s, j);
        let e = ws_end(s, j);
        if e + 3 == s.len() && s[e] == '-' && s[e + 1] == '-' && s[e + 2] == '>' {
            assert(s[e] == m[e - u] && s[e + 1] == m[e + 1 - u] && s[e + 2] == m[e + 2 - u]);
            assert(m.subrange(m.len() - 3, m.len() as int) =~= seq!['-', '-', '>']);
        }
        if e + 2 == s.len() && s[e] == '*' && s[e + 1] == '/' {
            assert(s[e] == m[e - u] && s[e + 1] == m[e + 1 - u]);
            assert(m.subrange(m.len() - 2, m.len() as int) =~= seq!['*', '/']);
        }
    }
    lemma_msg_end_at_len(s, u);
    assert(s.subrange(u, s.len() as int) =~= m);
}

proof fn lemma_author_read(s: Seq<char>, p: int, a: Seq<char>)
    requires
        0 <= p,
        s.len() > p + a.len() + 2,
        s[p] == '(',
        forall|k: int| 0 <= k < a.len() ==> s[p + 1 + k] == a[k],
        s[p + 1 + a.len()] == ')',
        plain_author(a),
    ensures
        author_span(s, p) == Some((p + 1, p + 1 + a.len())),
        author_of(s, Some((p + 1, p + 1 + a.len()))) == Some(a),
{
    let c = p + 1 + a.len();
    assert forall|k: int| p + 1 <= k < c implies s[k] != ')' by {
        assert(s[k] == a[k - p - 1]);
        if s[k] == ')' {
            assert(a.contains(')'));
        }
    }
    lemma_close_paren_at(s, p + 1, c);
    assert(s.subrange(p + 1, c) =~= a);
    lemma_trim_plain(a);
}

/// An annotation written as `<opener> TAG(author): message` (the author part
/// optional) reads back as that tag, author and message.
pub proof fn lemma_written_annotation_reads_back(
    o: Seq<char>,
    t: Tag,
    author: Option<Seq<char>>,
    m: Seq<char>,
    file: Seq<char>,
    n: nat,
)
    requires
        is_opener(o),
        plain_message(m),
        author matches Some(a) ==> plain_author(a),
    ensures
        parsed_item(written_annotation(o, t, author, m), file, n) == Some(
            ItemView {
                tag: t,
                message: m,
                author,
                file,
                line: n,
                raw_line: written_annotation(o, t, author, m),
            },
        ),
{
    let s = written_annotation(o, t, author, m);
    let name = tag_name(t);
    let ap = match author {
        Some(a) => seq!['('] + a + seq![')'],
        None => Seq::<char>::empty(),
    };
    let lo = o.len() as int;
    let ts = lo + 1;
    let a_pos = ts + name.len();
    let v = a_pos + ap.len();
    let u = v + 2;
    assert(s =~= o + seq![' '] + name + ap + seq![':', ' '] + m);
    assert(s.len() == u + m.len());
    assert forall|k: int| 0 <= k < lo implies s[k] == o[k] by {}
    assert(s[lo] == ' ');
    assert forall|k: int| 0 <= k < name.len() implies s[ts + k] == name[k] by {}
    assert forall|k: int| 0 <= k < ap.len() implies s[a_pos + k] == ap[k] by {}
    assert(s[v] == ':');
    assert(s[v + 1] == ' ');
    assert forall|k: int| 0 <= k < m.len() implies s[v + 2 + k] == m[k] by {}
    lemma_tag_read(s, o, t);
    lemma_message_read(s, v, m);
    assert(ws_end(s, ts + name.len()) == a_pos) by {
        if ap.len() > 0 {
            assert(s[a_pos] == ap[0]);
        }
    }
    match author {
        Some(a) => {
            assert(s[a_pos] == ap[0]);
            assert forall|k: int| 0 <= k < a.len() implies s[a_pos + 1 + k] == a[k] by {
                assert(s[a_pos + 1 + k] == ap[1 + k]);
            }
            assert(s[a_pos + 1 + a.len()] == ap[1 + a.len() as int]);
            lemma_author_read(s, a_pos, a);
        },
        None => {},
    }
    assert(message_start(s, a_pos, author_span(s, a_pos)) == u);
    lemma_trim_plain(m);
}

} // verus!
