//! Terminal colours for tags and headers, as the `colored` crate writes them.
//!
//! Whether `colored` colours at all depends on the environment (`NO_COLOR`,
//! `CLICOLOR`, `CLICOLOR_FORCE`, whether standard output is a terminal), and
//! true colours depend on `COLORTERM`; so every call here may give either
//! the plain text or the text wrapped in an escape sequence and a reset.
use vstd::prelude::*;

use crate::text::pad;
use crate::types::{Tag, tag_name};

verus! {

/// `text` wrapped in the escape sequence `ESC [ code m` and the reset `ESC [ 0 m`.
pub open spec fn painted(text: Seq<char>, code: Seq<char>) -> Seq<char> {
    seq!['\x1b', '['] + code + seq!['m'] + text + seq!['\x1b', '[', '0', 'm']
}

/// Whether `out` is `text`, plain or painted with `code`.
pub open spec fn plain_or_painted(out: Seq<char>, text: Seq<char>, code: Seq<char>) -> bool {
    out == text || out == painted(text, code)
}

/// Whether `s` holds no escape character.
pub open spec fn escape_free(s: Seq<char>) -> bool {
    !s.contains('\x1b')
}

/// Trusted: `colored::Colorize::red` then `bold`, shown with `to_string`.
/// Stated: the label, plain or in bold red (`1;31`).
#[verifier::external_body]
fn paint_red_bold(label: &str) -> (r: String)
    requires
        escape_free(label@),
    ensures
        plain_or_painted(r@, label@, seq!['1', ';', '3', '1']),
{
    colored::Colorize::bold(colored::Colorize::red(label)).to_string()
}

/// Trusted: `colored::Colorize::yellow` then `bold`, shown with `to_string`.
/// Stated: the label, plain or in bold yellow (`1;33`).
#[verifier::external_body]
fn paint_yellow_bold(label: &str) -> (r: String)
    requires
        escape_free(label@),
    ensures
        plain_or_painted(r@, label@, seq!['1', ';', '3', '3']),
{
    colored::Colorize::bold(colored::Colorize::yellow(label)).to_string()
}

/// Trusted: `colored::Colorize::magenta` then `bold`, shown with `to_string`.
/// Stated: the label, plain or in bold magenta (`1;35`).
#[verifier::external_body]
fn paint_magenta_bold(label: &str) -> (r: String)
    requires
        escape_free(label@),
    ensures
        plain_or_painted(r@, label@, seq!['1', ';', '3', '5']),
{
    colored::Colorize::bold(colored::Colorize::magenta(label)).to_string()
}

/// Trusted: `colored::Colorize::red`, shown with `to_string`.
/// Stated: the label, plain or in red (`31`).
#[verifier::external_body]
fn paint_red(label: &str) -> (r: String)
    requires
        escape_free(label@),
    ensures
        plain_or_painted(r@, label@, seq!['3', '1']),
{
    colored::Colorize::red(label).to_string()
}

/// Trusted: `colored::Colorize::cyan`, shown with `to_string`.
/// Stated: the label, plain or in cyan (`36`).
#[verifier::external_body]
fn paint_cyan(label: &str) -> (r: String)
    requires
        escape_free(label@),
    ensures
        plain_or_painted(r@, label@, seq!['3', '6']),
{
    colored::Colorize::cyan(label).to_string()
}

/// Trusted: `colored::Colorize::green`, shown with `to_string`.
/// Stated: the label, plain or in green (`32`).
#[verifier::external_body]
fn paint_green(label: &str) -> (r: String)
    requires
        escape_free(label@),
    ensures
        plain_or_painted(r@, label@, seq!['3', '2']),
{
    colored::Colorize::green(label).to_string()
}

/// The escape code of bold orange when the terminal takes true colours.
pub open spec fn orange_bold_code() -> Seq<char> {
    seq!['1', ';', '3', '8', ';', '2', ';', '2', '5', '5', ';', '1', '6', '5', ';', '0']
}

/// Whether `out` is `text` plain, in bold true-colour orange, or in the bold
/// basic colour (a two-digit code) that stands for orange without true colours.
pub open spec fn orange_bold(out: Seq<char>, text: Seq<char>) -> bool {
    ||| out == text
    ||| out == painted(text, orange_bold_code())
    ||| exists|c: Seq<char>| c.len() == 2 && out == painted(text, #[trigger] bold_code(c))
}

/// The escape code of colour `c` in bold.
pub open spec fn bold_code(c: Seq<char>) -> Seq<char> {
    seq!['1', ';'] + c
}

/// Trusted: `colored::Colorize::truecolor(255, 165, 0)` then `bold`, shown
/// with `to_string`. Stated: the label, plain, in bold true-colour orange, or
/// (without true-colour support) in the bold basic colour nearest to orange.
/// Not stated: which basic colour that is.
#[verifier::external_body]
fn paint_orange_bold(label: &str) -> (r: String)
    requires
        escape_free(label@),
    ensures
        orange_bold(r@, label@),
{
    colored::Colorize::bold(colored::Colorize::truecolor(label, 255, 165, 0)).to_string()
}

/// Trusted: `colored::Colorize::bold` then `underline`, formatted with
/// `{:<width}`. Stated: the label padded with spaces to `width` characters,
/// plain or in bold underline (`1;4`); `colored` pads the text inside the
/// escape sequence.
#[verifier::external_body]
pub(crate) fn paint_heading(label: &str, width: usize) -> (r: String)
    requires
        escape_free(label@),
    ensures
        plain_or_painted(r@, pad(label@, width as nat), seq!['1', ';', '4']),
{
    format!("{:<1$}", colored::Colorize::underline(colored::Colorize::bold(label)), width)
}

/// The escape code of a tag's colour, for every tag but `WARN`.
pub open spec fn tag_code(t: Tag) -> Seq<char> {
    match t {
        Tag::Fixme | Tag::Bug => seq!['1', ';', '3', '1'],
        Tag::Todo => seq!['1', ';', '3', '3'],
        Tag::Hack => seq!['1', ';', '3', '5'],
        Tag::Xxx => seq!['3', '1'],
        Tag::Note => seq!['3', '6'],
        Tag::Optimize => seq!['3', '2'],
        Tag::Warn => seq!['1', ';', '3', '3'],
    }
}

/// Whether `cell` shows tag `t`: its name, plain or in the tag's colour
/// (bold red for FIXME and BUG, bold yellow for TODO, bold magenta for HACK,
/// red for XXX, cyan for NOTE, green for OPTIMIZE, bold orange for WARN).
pub open spec fn tag_cell(t: Tag, cell: Seq<char>) -> bool {
    if t == Tag::Warn {
        orange_bold(cell, tag_name(t))
    } else {
        plain_or_painted(cell, tag_name(t), tag_code(t))
    }
}

/// The tag's name in its colour.
pub fn colorize_tag(tag: &Tag) -> (r: String)
    ensures
        tag_cell(*tag, r@),
{
    let label = tag.name();
    assert(escape_free(label@)) by {
        if label@.contains('\x1b') {
            let i = choose|i: int| 0 <= i < label@.len() && label@[i] == '\x1b';
            assert(tag_name(*tag)[i] == '\x1b');
        }
    }
    match tag {
        Tag::Fixme | Tag::Bug => paint_red_bold(label),
        Tag::Todo => paint_yellow_bold(label),
        Tag::Hack => paint_magenta_bold(label),
        Tag::Xxx => paint_red(label),
        Tag::Note => paint_cyan(label),
        Tag::Optimize => paint_green(label),
        Tag::Warn => paint_orange_bold(label),
    }
}

} // verus!
