use vstd::prelude::*;

verus! {

/// Unicode `White_Space`: the characters that `char::is_whitespace`, `str::trim`
/// and the `\s` class of an annotation line agree on.
pub open spec fn is_ws(c: char) -> bool {
    ||| ('\t' <= c && c <= '\r')
    ||| c == ' '
    ||| c == '\u{85}'
    ||| c == '\u{a0}'
    ||| c == '\u{1680}'
    ||| ('\u{2000}' <= c && c <= '\u{200a}')
    ||| c == '\u{2028}'
    ||| c == '\u{2029}'
    ||| c == '\u{202f}'
    ||| c == '\u{205f}'
    ||| c == '\u{3000}'
}

/// Whether `c` is a whitespace character.
pub fn is_whitespace(c: char) -> (r: bool)
    ensures
        r == is_ws(c),
{
    ('\t' <= c && c <= '\r') || c == ' ' || c == '\u{85}' || c == '\u{a0}' || c == '\u{1680}'
        || ('\u{2000}' <= c && c <= '\u{200a}') || c == '\u{2028}' || c == '\u{2029}'
        || c == '\u{202f}' || c == '\u{205f}' || c == '\u{3000}'
}

} // verus!

verus! {

/// The characters of `s`, in order.
pub fn chars_of(s: &str) -> (r: Vec<char>)
    ensures
        r@ == s@,
{
    let mut out: Vec<char> = Vec::new();
    for c in it: s.chars()
        invariant
            out@ == it.seq().take(it.index() as int),
            it.seq() == s@,
    {
        out.push(c);
    }
    out
}

} // verus!

verus! {

/// The string made of `chars`, in order.
///
/// Trusted: `String`'s `FromIterator<char>` impl. Its documentation says that
/// collecting characters appends each of them in turn, so the string's
/// characters are exactly `chars`.
#[verifier::external_body]
pub(crate) fn string_from_chars(chars: &[char]) -> (r: String)
    ensures
        r@ == chars@,
{
    chars.iter().collect()
}

/// `s` without its leading whitespace (`str::trim_start`).
pub open spec fn trim_start(s: Seq<char>) -> Seq<char>
    decreases s.len(),
{
    if s.len() > 0 && is_ws(s[0]) {
        trim_start(s.drop_first())
    } else {
        s
    }
}

/// `s` without its trailing whitespace (`str::trim_end`).
pub open spec fn trim_end(s: Seq<char>) -> Seq<char>
    decreases s.len(),
{
    if s.len() > 0 && is_ws(s.last()) {
        trim_end(s.drop_last())
    } else {
        s
    }
}

/// `s` without leading and trailing whitespace (`str::trim`).
pub open spec fn trim(s: Seq<char>) -> Seq<char> {
    trim_end(trim_start(s))
}

/// Bounds `(a, b)` such that `s[lo..hi]` trimmed is `s[a..b]`.
pub fn trim_bounds(s: &Vec<char>, lo: usize, hi: usize) -> (r: (usize, usize))
    requires
        lo <= hi <= s.len(),
    ensures
        lo <= r.0 <= r.1 <= hi,
        s@.subrange(r.0 as int, r.1 as int) == trim(s@.subrange(lo as int, hi as int)),
{
    let mut a = lo;
    while a < hi && is_whitespace(s[a])
        invariant
            lo <= a <= hi <= s.len(),
            trim_start(s@.subrange(a as int, hi as int)) == trim_start(
                s@.subrange(lo as int, hi as int),
            ),
        decreases hi - a,
    {
        assert(s@.subrange(a as int, hi as int).drop_first() =~= s@.subrange(
            a + 1,
            hi as int,
        ));
        a = a + 1;
    }
    let mut b = hi;
    while b > a && is_whitespace(s[b - 1])
        invariant
            lo <= a <= b <= hi <= s.len(),
            trim_end(s@.subrange(a as int, b as int)) == trim(s@.subrange(lo as int, hi as int)),
        decreases b,
    {
        assert(s@.subrange(a as int, b as int).drop_last() =~= s@.subrange(
            a as int,
            b - 1,
        ));
        b = b - 1;
    }
    (a, b)
}

/// A sequence of `n` spaces.
pub open spec fn spaces(n: nat) -> Seq<char> {
    Seq::new(n, |i: int| ' ')
}

/// `s` padded on the right with spaces to at least `w` characters (`{:<w}`).
pub open spec fn pad(s: Seq<char>, w: nat) -> Seq<char> {
    if s.len() >= w {
        s
    } else {
        s + spaces((w - s.len()) as nat)
    }
}

/// Appends `s` padded on the right with spaces to at least `w` characters.
pub fn push_padded(out: &mut Vec<char>, s: &[char], w: usize)
    ensures
        final(out)@ == old(out)@ + pad(s@, w as nat),
{
    let mut i: usize = 0;
    while i < s.len()
        invariant
            i <= s.len(),
            out@ == old(out)@ + s@.take(i as int),
        decreases s.len() - i,
    {
        out.push(s[i]);
        i = i + 1;
    }
    assert(s@.take(s.len() as int) =~= s@);
    let mut k: usize = s.len();
    while k < w
        invariant
            s.len() <= k <= w || (s.len() >= w && k == s.len()),
            out@ == old(out)@ + s@ + spaces((k - s.len()) as nat),
        decreases w - k,
    {
        out.push(' ');
        assert(spaces((k + 1 - s.len()) as nat) =~= spaces((k - s.len()) as nat).push(' '));
        k = k + 1;
    }
    assert(spaces(0) =~= Seq::<char>::empty());
    if s.len() >= w {
        assert(old(out)@ + s@ + spaces(0) =~= old(out)@ + s@);
    } else {
        assert(old(out)@ + s@ + spaces((w - s.len()) as nat) =~= old(out)@ + (s@ + spaces(
            (w - s.len()) as nat,
        )));
    }
}

/// The characters `s[lo..hi]`.
pub fn copy_range(s: &Vec<char>, lo: usize, hi: usize) -> (r: Vec<char>)
    requires
        lo <= hi <= s.len(),
    ensures
        r@ == s@.subrange(lo as int, hi as int),
{
    let mut out: Vec<char> = Vec::new();
    let mut i = lo;
    while i < hi
        invariant
            lo <= i <= hi <= s.len(),
            out@ == s@.subrange(lo as int, i as int),
        decreases hi - i,
    {
        out.push(s[i]);
        assert(s@.subrange(lo as int, i + 1) =~= s@.subrange(lo as int, i as int).push(s@[i as int]));
        i = i + 1;
    }
    out
}

/// Appends all of `s` to `out`.
pub fn push_all(out: &mut Vec<char>, s: &[char])
    ensures
        final(out)@ == old(out)@ + s@,
{
    let mut i: usize = 0;
    while i < s.len()
        invariant
            i <= s.len(),
            out@ == old(out)@ + s@.take(i as int),
        decreases s.len() - i,
    {
        out.push(s[i]);
        assert(s@.take(i + 1) =~= s@.take(i as int).push(s@[i as int]));
        i = i + 1;
    }
    assert(s@.take(s.len() as int) =~= s@);
}

/// The decimal digit character for `d < 10`.
pub open spec fn digit(d: nat) -> char {
    if d == 0 { '0' }
    else if d == 1 { '1' }
    else if d == 2 { '2' }
    else if d == 3 { '3' }
    else if d == 4 { '4' }
    else if d == 5 { '5' }
    else if d == 6 { '6' }
    else if d == 7 { '7' }
    else if d == 8 { '8' }
    else { '9' }
}

/// The decimal representation of `n`, as `usize`'s `Display` writes it.
pub open spec fn decimal(n: nat) -> Seq<char>
    decreases n,
{
    if n < 10 {
        seq![digit(n)]
    } else {
        decimal(n / 10).push(digit(n % 10))
    }
}

fn digit_char(d: usize) -> (c: char)
    requires
        d < 10,
    ensures
        c == digit(d as nat),
{
    if d == 0 { '0' }
    else if d == 1 { '1' }
    else if d == 2 { '2' }
    else if d == 3 { '3' }
    else if d == 4 { '4' }
    else if d == 5 { '5' }
    else if d == 6 { '6' }
    else if d == 7 { '7' }
    else if d == 8 { '8' }
    else { '9' }
}

/// The decimal digits of `n`.
pub fn decimal_chars(n: usize) -> (r: Vec<char>)
    ensures
        r@ == decimal(n as nat),
    decreases n,
{
    if n < 10 {
        let mut v: Vec<char> = Vec::new();
        v.push(digit_char(n));
        assert(v@ =~= seq![digit(n as nat)]);
        v
    } else {
        let mut v = decimal_chars(n / 10);
        v.push(digit_char(n % 10));
        v
    }
}

/// Whether `needle` occurs in `hay` (`str::contains`).
pub open spec fn contains_seq(hay: Seq<char>, needle: Seq<char>) -> bool {
    exists|i: int| 0 <= i && i + needle.len() <= hay.len() && #[trigger] hay.subrange(i, i + needle.len()) == needle
}

/// Whether `needle` is written in `hay` at `i`.
pub fn matches_at(hay: &[char], i: usize, needle: &[char]) -> (r: bool)
    requires
        i + needle.len() <= hay.len(),
    ensures
        r == (hay@.subrange(i as int, i + needle.len()) == needle@),
{
    let mut k: usize = 0;
    while k < needle.len()
        invariant
            k <= needle.len(),
            i + needle.len() <= hay.len(),
            forall|j: int| 0 <= j < k ==> hay@[i + j] == needle@[j],
        decreases needle.len() - k,
    {
        if hay[i + k] != needle[k] {
            assert(hay@.subrange(i as int, i + needle.len())[k as int] != needle@[k as int]);
            return false;
        }
        k = k + 1;
    }
    assert(hay@.subrange(i as int, i + needle.len()) =~= needle@);
    true
}

/// Whether `needle` occurs in `hay`.
pub fn contains_chars(hay: &[char], needle: &[char]) -> (r: bool)
    ensures
        r == contains_seq(hay@, needle@),
{
    if needle.len() > hay.len() {
        return false;
    }
    if needle.len() == 0 {
        assert(hay@.subrange(0int, 0int + needle.len()) =~= needle@);
        return true;
    }
    let last = hay.len() - needle.len();
    let mut i: usize = 0;
    while i <= last
        invariant
            last + needle.len() == hay.len(),
            needle.len() > 0,
            i <= last + 1,
            forall|j: int| 0 <= j < i ==> #[trigger] hay@.subrange(j, j + needle.len()) != needle@,
        decreases last + 1 - i,
    {
        if matches_at(hay, i, needle) {
            return true;
        }
        i = i + 1;
    }
    false
}

} // verus!

verus! {

/// What `str::to_lowercase` gives for `s` (full Unicode lower-casing).
pub uninterp spec fn lowercase_of(s: Seq<char>) -> Seq<char>;

/// What `str::to_uppercase` gives for `s` (full Unicode upper-casing).
pub uninterp spec fn uppercase_of(s: Seq<char>) -> Seq<char>;

/// Whether every character of `s` is ASCII.
pub open spec fn all_ascii(s: Seq<char>) -> bool {
    forall|i: int| 0 <= i < s.len() ==> s[i] <= '\u{7f}'
}

/// `s` with its ASCII capital letters made small.
pub open spec fn ascii_lowercase(s: Seq<char>) -> Seq<char> {
    s.map_values(|c: char| if 'A' <= c && c <= 'Z' { ((c as u32) + 32) as char } else { c })
}

/// `s` with its ASCII small letters made capital.
pub open spec fn ascii_uppercase(s: Seq<char>) -> Seq<char> {
    s.map_values(|c: char| if 'a' <= c && c <= 'z' { ((c as u32) - 32) as char } else { c })
}

/// Trusted: `str::to_lowercase`. Its result depends on the characters of `s`
/// alone (Unicode's case tables, no locale), so it is named `lowercase_of`.
/// Stated besides: Unicode lower-cases the ASCII letters `A`..`Z` to `a`..`z`
/// and leaves every other ASCII character as it is, so an ASCII string is
/// lower-cased letter by letter. Not stated: how other characters map.
#[verifier::external_body]
pub(crate) fn to_lowercase(s: &str) -> (r: String)
    ensures
        r@ == lowercase_of(s@),
        all_ascii(s@) ==> r@ == ascii_lowercase(s@),
{
    s.to_lowercase()
}

/// Trusted: `str::to_uppercase`. Its result depends on the characters of `s`
/// alone (Unicode's case tables, no locale), so it is named `uppercase_of`.
/// Stated besides: Unicode upper-cases the ASCII letters `a`..`z` to `A`..`Z`
/// and leaves every other ASCII character as it is, so an ASCII string is
/// upper-cased letter by letter. Not stated: how other characters map.
#[verifier::external_body]
pub(crate) fn to_uppercase(s: &str) -> (r: String)
    ensures
        r@ == uppercase_of(s@),
        all_ascii(s@) ==> r@ == ascii_uppercase(s@),
{
    s.to_uppercase()
}

} // verus!

verus! {

/// The lines `ls` joined with `sep` between them (`[_]::join`).
pub open spec fn join(ls: Seq<Seq<char>>, sep: Seq<char>) -> Seq<char>
    decreases ls.len(),
{
    if ls.len() == 0 {
        Seq::empty()
    } else if ls.len() == 1 {
        ls[0]
    } else {
        join(ls.drop_last(), sep) + sep + ls.last()
    }
}

/// The views of a sequence of character vectors.
pub open spec fn seqs_of(ls: Seq<Vec<char>>) -> Seq<Seq<char>> {
    ls.map_values(|v: Vec<char>| v@)
}

/// The views of a sequence of strings.
pub open spec fn strings_of(ls: Seq<String>) -> Seq<Seq<char>> {
    ls.map_values(|s: String| s@)
}

/// `ls` joined with `sep` between them.
pub fn join_lines(ls: &Vec<Vec<char>>, sep: &[char]) -> (r: Vec<char>)
    ensures
        r@ == join(seqs_of(ls@), sep@),
{
    let mut out: Vec<char> = Vec::new();
    let mut i: usize = 0;
    while i < ls.len()
        invariant
            i <= ls.len(),
            out@ == join(seqs_of(ls@).take(i as int), sep@),
        decreases ls.len() - i,
    {
        let ghost before = out@;
        if i > 0 {
            push_all(&mut out, sep);
        }
        push_all(&mut out, ls[i].as_slice());
        proof {
            let t = seqs_of(ls@).take(i + 1);
            assert(t.drop_last() =~= seqs_of(ls@).take(i as int));
            assert(t.last() == ls@[i as int]@);
            if i == 0 {
                assert(before =~= Seq::<char>::empty());
                assert(out@ =~= t[0]);
            }
        }
        i = i + 1;
    }
    assert(seqs_of(ls@).take(ls.len() as int) =~= seqs_of(ls@));
    out
}

/// The number of bytes of `c` in UTF-8.
pub open spec fn utf8_width(c: char) -> nat {
    if c <= '\u{7f}' {
        1
    } else if c <= '\u{7ff}' {
        2
    } else if c <= '\u{ffff}' {
        3
    } else {
        4
    }
}

/// The number of bytes of `s` in UTF-8 (`str::len`).
pub open spec fn byte_len(s: Seq<char>) -> nat
    decreases s.len(),
{
    if s.len() == 0 {
        0
    } else {
        utf8_width(s[0]) + byte_len(s.drop_first())
    }
}

/// The number of bytes of `c` in UTF-8.
pub fn utf8_width_of(c: char) -> (r: usize)
    ensures
        r == utf8_width(c),
{
    if c <= '\u{7f}' {
        1
    } else if c <= '\u{7ff}' {
        2
    } else if c <= '\u{ffff}' {
        3
    } else {
        4
    }
}

/// Each earlier suffix is longer in bytes by at least one byte per character.
pub proof fn lemma_byte_len_skip(s: Seq<char>, k: int, j: int)
    requires
        0 <= k <= j <= s.len(),
    ensures
        byte_len(s.skip(k)) >= byte_len(s.skip(j)) + (j - k),
    decreases j - k,
{
    if k < j {
        lemma_byte_len_skip(s, k + 1, j);
        assert(s.skip(k).drop_first() =~= s.skip(k + 1));
    }
}

} // verus!

verus! {

/// Whether `a` and `b` hold the same characters.
pub fn equals_chars(a: &Vec<char>, b: &Vec<char>) -> (r: bool)
    ensures
        r == (a@ == b@),
{
    if a.len() != b.len() {
        return false;
    }
    let mut i: usize = 0;
    while i < a.len()
        invariant
            a.len() == b.len(),
            i <= a.len(),
            forall|j: int| 0 <= j < i ==> a@[j] == b@[j],
        decreases a.len() - i,
    {
        if a[i] != b[i] {
            return false;
        }
        i = i + 1;
    }
    assert(a@ =~= b@);
    true
}

} // verus!

verus! {

/// Whether `s` neither starts nor ends with whitespace.
pub open spec fn no_edge_whitespace(s: Seq<char>) -> bool {
    s.len() == 0 || (!is_ws(s[0]) && !is_ws(s.last()))
}

proof fn lemma_trim_start_edge(s: Seq<char>)
    ensures
        trim_start(s).len() == 0 || !is_ws(trim_start(s)[0]),
    decreases s.len(),
{
    if s.len() > 0 && is_ws(s[0]) {
        lemma_trim_start_edge(s.drop_first());
    }
}

proof fn lemma_trim_end_edge(s: Seq<char>)
    ensures
        trim_end(s).len() == 0 || !is_ws(trim_end(s).last()),
        trim_end(s).len() <= s.len(),
        trim_end(s) == s.take(trim_end(s).len() as int),
    decreases s.len(),
{
    if s.len() > 0 && is_ws(s.last()) {
        lemma_trim_end_edge(s.drop_last());
        let t = trim_end(s.drop_last());
        assert(s.drop_last().take(t.len() as int) =~= s.take(t.len() as int));
    } else {
        assert(s.take(s.len() as int) =~= s);
    }
}

/// Trimming leaves no whitespace at either end.
pub proof fn lemma_trim_edges(s: Seq<char>)
    ensures
        no_edge_whitespace(trim(s)),
{
    lemma_trim_start_edge(s);
    lemma_trim_end_edge(trim_start(s));
    let u = trim_start(s);
    let t = trim_end(u);
    if t.len() > 0 {
        assert(t[0] == u.take(t.len() as int)[0]);
    }
}

} // verus!

verus! {

/// Whether `c` is a decimal digit.
pub open spec fn is_digit(c: char) -> bool {
    '0' <= c && c <= '9'
}

/// The value of the digit character `c`.
pub open spec fn digit_value(c: char) -> int {
    (c as int) - ('0' as int)
}

/// The number that the digit characters `s` write in base 10.
pub open spec fn digits_value(s: Seq<char>) -> int
    decreases s.len(),
{
    if s.len() == 0 {
        0
    } else {
        digits_value(s.drop_last()) * 10 + digit_value(s.last())
    }
}

/// Padding never shortens: `s` padded to `w` starts with the whole of `s`,
/// is `w` long when `s` is shorter (else just `s`), and adds only spaces.
pub proof fn lemma_pad_only_adds_spaces(s: Seq<char>, w: nat)
    ensures
        pad(s, w).len() == if s.len() >= w { s.len() } else { w },
        pad(s, w).take(s.len() as int) == s,
        forall|i: int| s.len() <= i < pad(s, w).len() ==> #[trigger] pad(s, w)[i] == ' ',
{
    assert(pad(s, w).take(s.len() as int) =~= s);
}

/// The digit written for `d < 10` is a decimal digit whose value is `d`.
proof fn lemma_digit_reads_back(d: nat)
    requires
        d < 10,
    ensures
        is_digit(digit(d)),
        digit_value(digit(d)) == d,
        d > 0 ==> digit(d) != '0',
{
    if d == 0 {
    } else if d == 1 {
    } else if d == 2 {
    } else if d == 3 {
    } else if d == 4 {
    } else if d == 5 {
    } else if d == 6 {
    } else if d == 7 {
    } else if d == 8 {
    } else {
    }
}

/// The digits written for `n` read back as `n`: they are decimal digits,
/// their base-10 value is `n`, and there is no leading zero (0 is written `0`).
pub proof fn lemma_decimal_reads_back(n: nat)
    ensures
        decimal(n).len() > 0,
        forall|i: int| 0 <= i < decimal(n).len() ==> is_digit(#[trigger] decimal(n)[i]),
        digits_value(decimal(n)) == n,
        n > 0 ==> decimal(n)[0] != '0',
        n == 0 ==> decimal(n) == seq!['0'],
        decimal(n).last() == digit((n % 10) as nat),
    decreases n,
{
    if n < 10 {
        let s = decimal(n);
        lemma_digit_reads_back(n);
        assert(s.drop_last() =~= Seq::<char>::empty());
        assert(digits_value(Seq::<char>::empty()) == 0);
        assert(digits_value(s) == digits_value(s.drop_last()) * 10 + digit_value(s.last()));
        assert(s.last() == digit(n));
        assert(n % 10 == n);
    } else {
        lemma_decimal_reads_back(n / 10);
        lemma_digit_reads_back((n % 10) as nat);
        let p = decimal(n / 10);
        let s = decimal(n);
        assert(s.drop_last() =~= p);
        assert(s[0] == p[0]);
        assert(s.last() == digit((n % 10) as nat));
        assert(digits_value(s) == digits_value(s.drop_last()) * 10 + digit_value(s.last()));
        assert(n == (n / 10) * 10 + n % 10);
        assert forall|i: int| 0 <= i < s.len() implies is_digit(#[trigger] s[i]) by {
            if i < p.len() {
                assert(s[i] == p[i]);
            }
        }
    }
}

} // verus!
