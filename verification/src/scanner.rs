//! Which directory entries and files a scan looks at, and what it finds in a file's text.
use vstd::prelude::*;

use crate::parser::{parse_line, parsed_item};
use crate::text::{all_ascii, ascii_lowercase, chars_of, contains_seq, copy_range, equals_chars, lowercase_of, string_from_chars, to_lowercase};
use crate::types::{item_views, ItemView, TodoItem};

verus! {

/// Extensions of files that are not scanned (binaries, media, archives, lock files).
pub open spec fn binary_extensions() -> Seq<Seq<char>> {
    seq![
        seq!['p', 'n', 'g'],
        seq!['j', 'p', 'g'],
        seq!['j', 'p', 'e', 'g'],
        seq!['g', 'i', 'f'],
        seq!['b', 'm', 'p'],
        seq!['i', 'c', 'o'],
        seq!['s', 'v', 'g'],
        seq!['w', 'e', 'b', 'p'],
        seq!['p', 'd', 'f'],
        seq!['d', 'o', 'c'],
        seq!['d', 'o', 'c', 'x'],
        seq!['x', 'l', 's'],
        seq!['x', 'l', 's', 'x'],
        seq!['p', 'p', 't'],
        seq!['p', 'p', 't', 'x'],
        seq!['z', 'i', 'p'],
        seq!['t', 'a', 'r'],
        seq!['g', 'z'],
        seq!['b', 'z', '2'],
        seq!['x', 'z'],
        seq!['7', 'z'],
        seq!['r', 'a', 'r'],
        seq!['e', 'x', 'e'],
        seq!['d', 'l', 'l'],
        seq!['s', 'o'],
        seq!['d', 'y', 'l', 'i', 'b'],
        seq!['o'],
        seq!['a'],
        seq!['l', 'i', 'b'],
        seq!['w', 'a', 's', 'm'],
        seq!['c', 'l', 'a', 's', 's'],
        seq!['p', 'y', 'c'],
        seq!['p', 'y', 'o'],
        seq!['t', 't', 'f'],
        seq!['o', 't', 'f'],
        seq!['w', 'o', 'f', 'f'],
        seq!['w', 'o', 'f', 'f', '2'],
        seq!['e', 'o', 't'],
        seq!['m', 'p', '3'],
        seq!['m', 'p', '4'],
        seq!['a', 'v', 'i'],
        seq!['m', 'o', 'v'],
        seq!['w', 'a', 'v'],
        seq!['f', 'l', 'a', 'c'],
        seq!['l', 'o', 'c', 'k']
    ]
}

/// Names of directories that are never descended into.
pub open spec fn skipped_dirs() -> Seq<Seq<char>> {
    seq![
        seq!['t', 'a', 'r', 'g', 'e', 't'],
        seq!['n', 'o', 'd', 'e', '_', 'm', 'o', 'd', 'u', 'l', 'e', 's'],
        seq!['d', 'i', 's', 't'],
        seq!['b', 'u', 'i', 'l', 'd'],
        seq!['v', 'e', 'n', 'd', 'o', 'r'],
        seq!['_', '_', 'p', 'y', 'c', 'a', 'c', 'h', 'e', '_', '_']
    ]
}

fn binary_extension_list() -> (r: Vec<Vec<char>>)
    ensures
        r@.len() == binary_extensions().len(),
        forall|i: int| 0 <= i < r@.len() ==> #[trigger] r@[i]@ == binary_extensions()[i],
{
    let r = vec![
        vec!['p', 'n', 'g'],
        vec!['j', 'p', 'g'],
        vec!['j', 'p', 'e', 'g'],
        vec!['g', 'i', 'f'],
        vec!['b', 'm', 'p'],
        vec!['i', 'c', 'o'],
        vec!['s', 'v', 'g'],
        vec!['w', 'e', 'b', 'p'],
        vec!['p', 'd', 'f'],
        vec!['d', 'o', 'c'],
        vec!['d', 'o', 'c', 'x'],
        vec!['x', 'l', 's'],
        vec!['x', 'l', 's', 'x'],
        vec!['p', 'p', 't'],
        vec!['p', 'p', 't', 'x'],
        vec!['z', 'i', 'p'],
        vec!['t', 'a', 'r'],
        vec!['g', 'z'],
        vec!['b', 'z', '2'],
        vec!['x', 'z'],
        vec!['7', 'z'],
        vec!['r', 'a', 'r'],
        vec!['e', 'x', 'e'],
        vec!['d', 'l', 'l'],
        vec!['s', 'o'],
        vec!['d', 'y', 'l', 'i', 'b'],
        vec!['o'],
        vec!['a'],
        vec!['l', 'i', 'b'],
        vec!['w', 'a', 's', 'm'],
        vec!['c', 'l', 'a', 's', 's'],
        vec!['p', 'y', 'c'],
        vec!['p', 'y', 'o'],
        vec!['t', 't', 'f'],
        vec!['o', 't', 'f'],
        vec!['w', 'o', 'f', 'f'],
        vec!['w', 'o', 'f', 'f', '2'],
        vec!['e', 'o', 't'],
        vec!['m', 'p', '3'],
        vec!['m', 'p', '4'],
        vec!['a', 'v', 'i'],
        vec!['m', 'o', 'v'],
        vec!['w', 'a', 'v'],
        vec!['f', 'l', 'a', 'c'],
        vec!['l', 'o', 'c', 'k']
    ];
    assert(r@[0]@ =~= binary_extensions()[0]);
    assert(r@[1]@ =~= binary_extensions()[1]);
    assert(r@[2]@ =~= binary_extensions()[2]);
    assert(r@[3]@ =~= binary_extensions()[3]);
    assert(r@[4]@ =~= binary_extensions()[4]);
    assert(r@[5]@ =~= binary_extensions()[5]);
    assert(r@[6]@ =~= binary_extensions()[6]);
    assert(r@[7]@ =~= binary_extensions()[7]);
    assert(r@[8]@ =~= binary_extensions()[8]);
    assert(r@[9]@ =~= binary_extensions()[9]);
    assert(r@[10]@ =~= binary_extensions()[10]);
    assert(r@[11]@ =~= binary_extensions()[11]);
    assert(r@[12]@ =~= binary_extensions()[12]);
    assert(r@[13]@ =~= binary_extensions()[13]);
    assert(r@[14]@ =~= binary_extensions()[14]);
    assert(r@[15]@ =~= binary_extensions()[15]);
    assert(r@[16]@ =~= binary_extensions()[16]);
    assert(r@[17]@ =~= binary_extensions()[17]);
    assert(r@[18]@ =~= binary_extensions()[18]);
    assert(r@[19]@ =~= binary_extensions()[19]);
    assert(r@[20]@ =~= binary_extensions()[20]);
    assert(r@[21]@ =~= binary_extensions()[21]);
    assert(r@[22]@ =~= binary_extensions()[22]);
    assert(r@[23]@ =~= binary_extensions()[23]);
    assert(r@[24]@ =~= binary_extensions()[24]);
    assert(r@[25]@ =~= binary_extensions()[25]);
    assert(r@[26]@ =~= binary_extensions()[26]);
    assert(r@[27]@ =~= binary_extensions()[27]);
    assert(r@[28]@ =~= binary_extensions()[28]);
    assert(r@[29]@ =~= binary_extensions()[29]);
    assert(r@[30]@ =~= binary_extensions()[30]);
    assert(r@[31]@ =~= binary_extensions()[31]);
    assert(r@[32]@ =~= binary_extensions()[32]);
    assert(r@[33]@ =~= binary_extensions()[33]);
    assert(r@[34]@ =~= binary_extensions()[34]);
    assert(r@[35]@ =~= binary_extensions()[35]);
    assert(r@[36]@ =~= binary_extensions()[36]);
    assert(r@[37]@ =~= binary_extensions()[37]);
    assert(r@[38]@ =~= binary_extensions()[38]);
    assert(r@[39]@ =~= binary_extensions()[39]);
    assert(r@[40]@ =~= binary_extensions()[40]);
    assert(r@[41]@ =~= binary_extensions()[41]);
    assert(r@[42]@ =~= binary_extensions()[42]);
    assert(r@[43]@ =~= binary_extensions()[43]);
    assert(r@[44]@ =~= binary_extensions()[44]);
    r
}

fn skipped_dir_list() -> (r: Vec<Vec<char>>)
    ensures
        r@.len() == skipped_dirs().len(),
        forall|i: int| 0 <= i < r@.len() ==> #[trigger] r@[i]@ == skipped_dirs()[i],
{
    let r = vec![
        vec!['t', 'a', 'r', 'g', 'e', 't'],
        vec!['n', 'o', 'd', 'e', '_', 'm', 'o', 'd', 'u', 'l', 'e', 's'],
        vec!['d', 'i', 's', 't'],
        vec!['b', 'u', 'i', 'l', 'd'],
        vec!['v', 'e', 'n', 'd', 'o', 'r'],
        vec!['_', '_', 'p', 'y', 'c', 'a', 'c', 'h', 'e', '_', '_']
    ];
    assert(r@[0]@ =~= skipped_dirs()[0]);
    assert(r@[1]@ =~= skipped_dirs()[1]);
    assert(r@[2]@ =~= skipped_dirs()[2]);
    assert(r@[3]@ =~= skipped_dirs()[3]);
    assert(r@[4]@ =~= skipped_dirs()[4]);
    assert(r@[5]@ =~= skipped_dirs()[5]);
    r
}

fn is_listed(list: &Vec<Vec<char>>, s: &Vec<char>) -> (r: bool)
    ensures
        r == exists|i: int| 0 <= i < list@.len() && #[trigger] list@[i]@ == s@,
{
    let mut i: usize = 0;
    while i < list.len()
        invariant
            i <= list.len(),
            forall|j: int| 0 <= j < i ==> #[trigger] list@[j]@ != s@,
        decreases list.len() - i,
    {
        if equals_chars(&list[i], s) {
            return true;
        }
        i = i + 1;
    }
    false
}

/// The extensions treated as binary are exactly these: images, documents,
/// archives, binaries, fonts, media and `lock`. Every other extension, and
/// so every common text one such as `md`, `txt` or `rs`, is scanned.
pub proof fn lemma_binary_extensions_exact(e: Seq<char>)
    ensures
        binary_extensions().contains(e) <==> {
            ||| e == seq!['p', 'n', 'g']
            ||| e == seq!['j', 'p', 'g']
            ||| e == seq!['j', 'p', 'e', 'g']
            ||| e == seq!['g', 'i', 'f']
            ||| e == seq!['b', 'm', 'p']
            ||| e == seq!['i', 'c', 'o']
            ||| e == seq!['s', 'v', 'g']
            ||| e == seq!['w', 'e', 'b', 'p']
            ||| e == seq!['p', 'd', 'f']
            ||| e == seq!['d', 'o', 'c']
            ||| e == seq!['d', 'o', 'c', 'x']
            ||| e == seq!['x', 'l', 's']
            ||| e == seq!['x', 'l', 's', 'x']
            ||| e == seq!['p', 'p', 't']
            ||| e == seq!['p', 'p', 't', 'x']
            ||| e == seq!['z', 'i', 'p']
            ||| e == seq!['t', 'a', 'r']
            ||| e == seq!['g', 'z']
            ||| e == seq!['b', 'z', '2']
            ||| e == seq!['x', 'z']
            ||| e == seq!['7', 'z']
            ||| e == seq!['r', 'a', 'r']
            ||| e == seq!['e', 'x', 'e']
            ||| e == seq!['d', 'l', 'l']
            ||| e == seq!['s', 'o']
            ||| e == seq!['d', 'y', 'l', 'i', 'b']
            ||| e == seq!['o']
            ||| e == seq!['a']
            ||| e == seq!['l', 'i', 'b']
            ||| e == seq!['w', 'a', 's', 'm']
            ||| e == seq!['c', 'l', 'a', 's', 's']
            ||| e == seq!['p', 'y', 'c']
            ||| e == seq!['p', 'y', 'o']
            ||| e == seq!['t', 't', 'f']
            ||| e == seq!['o', 't', 'f']
            ||| e == seq!['w', 'o', 'f', 'f']
            ||| e == seq!['w', 'o', 'f', 'f', '2']
            ||| e == seq!['e', 'o', 't']
            ||| e == seq!['m', 'p', '3']
            ||| e == seq!['m', 'p', '4']
            ||| e == seq!['a', 'v', 'i']
            ||| e == seq!['m', 'o', 'v']
            ||| e == seq!['w', 'a', 'v']
            ||| e == seq!['f', 'l', 'a', 'c']
            ||| e == seq!['l', 'o', 'c', 'k']
        },
        !binary_extensions().contains(seq!['m', 'd']),
        !binary_extensions().contains(seq!['t', 'x', 't']),
        !binary_extensions().contains(seq!['r', 's']),
{
    let l = binary_extensions();
    assert(l.len() == 45);
    assert(l[0] == seq!['p', 'n', 'g']);
    assert(l[1] == seq!['j', 'p', 'g']);
    assert(l[2] == seq!['j', 'p', 'e', 'g']);
    assert(l[3] == seq!['g', 'i', 'f']);
    assert(l[4] == seq!['b', 'm', 'p']);
    assert(l[5] == seq!['i', 'c', 'o']);
    assert(l[6] == seq!['s', 'v', 'g']);
    assert(l[7] == seq!['w', 'e', 'b', 'p']);
    assert(l[8] == seq!['p', 'd', 'f']);
    assert(l[9] == seq!['d', 'o', 'c']);
    assert(l[10] == seq!['d', 'o', 'c', 'x']);
    assert(l[11] == seq!['x', 'l', 's']);
    assert(l[12] == seq!['x', 'l', 's', 'x']);
    assert(l[13] == seq!['p', 'p', 't']);
    assert(l[14] == seq!['p', 'p', 't', 'x']);
    assert(l[15] == seq!['z', 'i', 'p']);
    assert(l[16] == seq!['t', 'a', 'r']);
    assert(l[17] == seq!['g', 'z']);
    assert(l[18] == seq!['b', 'z', '2']);
    assert(l[19] == seq!['x', 'z']);
    assert(l[20] == seq!['7', 'z']);
    assert(l[21] == seq!['r', 'a', 'r']);
    assert(l[22] == seq!['e', 'x', 'e']);
    assert(l[23] == seq!['d', 'l', 'l']);
    assert(l[24] == seq!['s', 'o']);
    assert(l[25] == seq!['d', 'y', 'l', 'i', 'b']);
    assert(l[26] == seq!['o']);
    assert(l[27] == seq!['a']);
    assert(l[28] == seq!['l', 'i', 'b']);
    assert(l[29] == seq!['w', 'a', 's', 'm']);
    assert(l[30] == seq!['c', 'l', 'a', 's', 's']);
    assert(l[31] == seq!['p', 'y', 'c']);
    assert(l[32] == seq!['p', 'y', 'o']);
    assert(l[33] == seq!['t', 't', 'f']);
    assert(l[34] == seq!['o', 't', 'f']);
    assert(l[35] == seq!['w', 'o', 'f', 'f']);
    assert(l[36] == seq!['w', 'o', 'f', 'f', '2']);
    assert(l[37] == seq!['e', 'o', 't']);
    assert(l[38] == seq!['m', 'p', '3']);
    assert(l[39] == seq!['m', 'p', '4']);
    assert(l[40] == seq!['a', 'v', 'i']);
    assert(l[41] == seq!['m', 'o', 'v']);
    assert(l[42] == seq!['w', 'a', 'v']);
    assert(l[43] == seq!['f', 'l', 'a', 'c']);
    assert(l[44] == seq!['l', 'o', 'c', 'k']);
    if l.contains(e) {
        let i = choose|i: int| 0 <= i < l.len() && l[i] == e;
        if i == 0 {
        } else if i == 1 {
        } else if i == 2 {
        } else if i == 3 {
        } else if i == 4 {
        } else if i == 5 {
        } else if i == 6 {
        } else if i == 7 {
        } else if i == 8 {
        } else if i == 9 {
        } else if i == 10 {
        } else if i == 11 {
        } else if i == 12 {
        } else if i == 13 {
        } else if i == 14 {
        } else if i == 15 {
        } else if i == 16 {
        } else if i == 17 {
        } else if i == 18 {
        } else if i == 19 {
        } else if i == 20 {
        } else if i == 21 {
        } else if i == 22 {
        } else if i == 23 {
        } else if i == 24 {
        } else if i == 25 {
        } else if i == 26 {
        } else if i == 27 {
        } else if i == 28 {
        } else if i == 29 {
        } else if i == 30 {
        } else if i == 31 {
        } else if i == 32 {
        } else if i == 33 {
        } else if i == 34 {
        } else if i == 35 {
        } else if i == 36 {
        } else if i == 37 {
        } else if i == 38 {
        } else if i == 39 {
        } else if i == 40 {
        } else if i == 41 {
        } else if i == 42 {
        } else if i == 43 {
        } else if i == 44 {
        }
    }
    if e == seq!['p', 'n', 'g'] {
        assert(l[0] == e);
    }
    if e == seq!['j', 'p', 'g'] {
        assert(l[1] == e);
    }
    if e == seq!['j', 'p', 'e', 'g'] {
        assert(l[2] == e);
    }
    if e == seq!['g', 'i', 'f'] {
        assert(l[3] == e);
    }
    if e == seq!['b', 'm', 'p'] {
        assert(l[4] == e);
    }
    if e == seq!['i', 'c', 'o'] {
        assert(l[5] == e);
    }
    if e == seq!['s', 'v', 'g'] {
        assert(l[6] == e);
    }
    if e == seq!['w', 'e', 'b', 'p'] {
        assert(l[7] == e);
    }
    if e == seq!['p', 'd', 'f'] {
        assert(l[8] == e);
    }
    if e == seq!['d', 'o', 'c'] {
        assert(l[9] == e);
    }
    if e == seq!['d', 'o', 'c', 'x'] {
        assert(l[10] == e);
    }
    if e == seq!['x', 'l', 's'] {
        assert(l[11] == e);
    }
    if e == seq!['x', 'l', 's', 'x'] {
        assert(l[12] == e);
    }
    if e == seq!['p', 'p', 't'] {
        assert(l[13] == e);
    }
    if e == seq!['p', 'p', 't', 'x'] {
        assert(l[14] == e);
    }
    if e == seq!['z', 'i', 'p'] {
        assert(l[15] == e);
    }
    if e == seq!['t', 'a', 'r'] {
        assert(l[16] == e);
    }
    if e == seq!['g', 'z'] {
        assert(l[17] == e);
    }
    if e == seq!['b', 'z', '2'] {
        assert(l[18] == e);
    }
    if e == seq!['x', 'z'] {
        assert(l[19] == e);
    }
    if e == seq!['7', 'z'] {
        assert(l[20] == e);
    }
    if e == seq!['r', 'a', 'r'] {
        assert(l[21] == e);
    }
    if e == seq!['e', 'x', 'e'] {
        assert(l[22] == e);
    }
    if e == seq!['d', 'l', 'l'] {
        assert(l[23] == e);
    }
    if e == seq!['s', 'o'] {
        assert(l[24] == e);
    }
    if e == seq!['d', 'y', 'l', 'i', 'b'] {
        assert(l[25] == e);
    }
    if e == seq!['o'] {
        assert(l[26] == e);
    }
    if e == seq!['a'] {
        assert(l[27] == e);
    }
    if e == seq!['l', 'i', 'b'] {
        assert(l[28] == e);
    }
    if e == seq!['w', 'a', 's', 'm'] {
        assert(l[29] == e);
    }
    if e == seq!['c', 'l', 'a', 's', 's'] {
        assert(l[30] == e);
    }
    if e == seq!['p', 'y', 'c'] {
        assert(l[31] == e);
    }
    if e == seq!['p', 'y', 'o'] {
        assert(l[32] == e);
    }
    if e == seq!['t', 't', 'f'] {
        assert(l[33] == e);
    }
    if e == seq!['o', 't', 'f'] {
        assert(l[34] == e);
    }
    if e == seq!['w', 'o', 'f', 'f'] {
        assert(l[35] == e);
    }
    if e == seq!['w', 'o', 'f', 'f', '2'] {
        assert(l[36] == e);
    }
    if e == seq!['e', 'o', 't'] {
        assert(l[37] == e);
    }
    if e == seq!['m', 'p', '3'] {
        assert(l[38] == e);
    }
    if e == seq!['m', 'p', '4'] {
        assert(l[39] == e);
    }
    if e == seq!['a', 'v', 'i'] {
        assert(l[40] == e);
    }
    if e == seq!['m', 'o', 'v'] {
        assert(l[41] == e);
    }
    if e == seq!['w', 'a', 'v'] {
        assert(l[42] == e);
    }
    if e == seq!['f', 'l', 'a', 'c'] {
        assert(l[43] == e);
    }
    if e == seq!['l', 'o', 'c', 'k'] {
        assert(l[44] == e);
    }
    assert forall|i: int| 0 <= i < l.len() implies l[i] != seq!['m', 'd'] by {
        if i == 0 {
        } else if i == 1 {
        } else if i == 2 {
        } else if i == 3 {
        } else if i == 4 {
        } else if i == 5 {
        } else if i == 6 {
        } else if i == 7 {
        } else if i == 8 {
        } else if i == 9 {
        } else if i == 10 {
        } else if i == 11 {
        } else if i == 12 {
        } else if i == 13 {
        } else if i == 14 {
        } else if i == 15 {
        } else if i == 16 {
        } else if i == 17 {
            assert(l[i][0] != seq!['m', 'd'][0]);
        } else if i == 18 {
        } else if i == 19 {
            assert(l[i][0] != seq!['m', 'd'][0]);
        } else if i == 20 {
            assert(l[i][0] != seq!['m', 'd'][0]);
        } else if i == 21 {
        } else if i == 22 {
        } else if i == 23 {
        } else if i == 24 {
            assert(l[i][0] != seq!['m', 'd'][0]);
        } else if i == 25 {
        } else if i == 26 {
        } else if i == 27 {
        } else if i == 28 {
        } else if i == 29 {
        } else if i == 30 {
        } else if i == 31 {
        } else if i == 32 {
        } else if i == 33 {
        } else if i == 34 {
        } else if i == 35 {
        } else if i == 36 {
        } else if i == 37 {
        } else if i == 38 {
        } else if i == 39 {
        } else if i == 40 {
        } else if i == 41 {
        } else if i == 42 {
        } else if i == 43 {
        } else if i == 44 {
        }
    }
    assert forall|i: int| 0 <= i < l.len() implies l[i] != seq!['t', 'x', 't'] by {
        if i == 0 {
            assert(l[i][0] != seq!['t', 'x', 't'][0]);
        } else if i == 1 {
            assert(l[i][0] != seq!['t', 'x', 't'][0]);
        } else if i == 2 {
        } else if i == 3 {
            assert(l[i][0] != seq!['t', 'x', 't'][0]);
        } else if i == 4 {
            assert(l[i][0] != seq!['t', 'x', 't'][0]);
        } else if i == 5 {
            assert(l[i][0] != seq!['t', 'x', 't'][0]);
        } else if i == 6 {
            assert(l[i][0] != seq!['t', 'x', 't'][0]);
        } else if i == 7 {
        } else if i == 8 {
            assert(l[i][0] != seq!['t', 'x', 't'][0]);
        } else if i == 9 {
            assert(l[i][0] != seq!['t', 'x', 't'][0]);
        } else if i == 10 {
        } else if i == 11 {
            assert(l[i][0] != seq!['t', 'x', 't'][0]);
        } else if i == 12 {
        } else if i == 13 {
            assert(l[i][0] != seq!['t', 'x', 't'][0]);
        } else if i == 14 {
        } else if i == 15 {
            assert(l[i][0] != seq!['t', 'x', 't'][0]);
        } else if i == 16 {
            assert(l[i][1] != seq!['t', 'x', 't'][1]);
        } else if i == 17 {
        } else if i == 18 {
            assert(l[i][0] != seq!['t', 'x', 't'][0]);
        } else if i == 19 {
        } else if i == 20 {
        } else if i == 21 {
            assert(l[i][0] != seq!['t', 'x', 't'][0]);
        } else if i == 22 {
            assert(l[i][0] != seq!['t', 'x', 't'][0]);
        } else if i == 23 {
            assert(l[i][0] != seq!['t', 'x', 't'][0]);
        } else if i == 24 {
        } else if i == 25 {
        } else if i == 26 {
        } else if i == 27 {
        } else if i == 28 {
            assert(l[i][0] != seq!['t', 'x', 't'][0]);
        } else if i == 29 {
        } else if i == 30 {
        } else if i == 31 {
            assert(l[i][0] != seq!['t', 'x', 't'][0]);
        } else if i == 32 {
            assert(l[i][0] != seq!['t', 'x', 't'][0]);
        } else if i == 33 {
            assert(l[i][1] != seq!['t', 'x', 't'][1]);
        } else if i == 34 {
            assert(l[i][0] != seq!['t', 'x', 't'][0]);
        } else if i == 35 {
        } else if i == 36 {
        } else if i == 37 {
            assert(l[i][0] != seq!['t', 'x', 't'][0]);
        } else if i == 38 {
            assert(l[i][0] != seq!['t', 'x', 't'][0]);
        } else if i == 39 {
            assert(l[i][0] != seq!['t', 'x', 't'][0]);
        } else if i == 40 {
            assert(l[i][0] != seq!['t', 'x', 't'][0]);
        } else if i == 41 {
            assert(l[i][0] != seq!['t', 'x', 't'][0]);
        } else if i == 42 {
            assert(l[i][0] != seq!['t', 'x', 't'][0]);
        } else if i == 43 {
        } else if i == 44 {
        }
    }
    assert forall|i: int| 0 <= i < l.len() implies l[i] != seq!['r', 's'] by {
        if i == 0 {
        } else if i == 1 {
        } else if i == 2 {
        } else if i == 3 {
        } else if i == 4 {
        } else if i == 5 {
        } else if i == 6 {
        } else if i == 7 {
        } else if i == 8 {
        } else if i == 9 {
        } else if i == 10 {
        } else if i == 11 {
        } else if i == 12 {
        } else if i == 13 {
        } else if i == 14 {
        } else if i == 15 {
        } else if i == 16 {
        } else if i == 17 {
            assert(l[i][0] != seq!['r', 's'][0]);
        } else if i == 18 {
        } else if i == 19 {
            assert(l[i][0] != seq!['r', 's'][0]);
        } else if i == 20 {
            assert(l[i][0] != seq!['r', 's'][0]);
        } else if i == 21 {
        } else if i == 22 {
        } else if i == 23 {
        } else if i == 24 {
            assert(l[i][0] != seq!['r', 's'][0]);
        } else if i == 25 {
        } else if i == 26 {
        } else if i == 27 {
        } else if i == 28 {
        } else if i == 29 {
        } else if i == 30 {
        } else if i == 31 {
        } else if i == 32 {
        } else if i == 33 {
        } else if i == 34 {
        } else if i == 35 {
        } else if i == 36 {
        } else if i == 37 {
        } else if i == 38 {
        } else if i == 39 {
        } else if i == 40 {
        } else if i == 41 {
        } else if i == 42 {
        } else if i == 43 {
        } else if i == 44 {
        }
    }
}

/// Whether a lower-cased extension is one of the binary extensions.
pub fn is_binary_extension(ext: &str) -> (r: bool)
    ensures
        r == binary_extensions().contains(ext@),
{
    let list = binary_extension_list();
    let e = chars_of(ext);
    let r = is_listed(&list, &e);
    proof {
        if r {
            let i = choose|i: int| 0 <= i < list@.len() && #[trigger] list@[i]@ == e@;
            assert(binary_extensions()[i] == ext@);
        } else {
            assert forall|i: int| 0 <= i < binary_extensions().len() implies binary_extensions()[i] != ext@ by {
                assert(list@[i]@ == binary_extensions()[i]);
            }
        }
    }
    r
}

} // verus!

verus! {

/// The position of the last `c` in `s`.
pub open spec fn last_index_of(s: Seq<char>, c: char) -> Option<int>
    decreases s.len(),
{
    if s.len() == 0 {
        None
    } else if s.last() == c {
        Some(s.len() - 1)
    } else {
        last_index_of(s.drop_last(), c)
    }
}

/// The part of `path` after its last `/` (all of it when it has none).
pub open spec fn last_part(path: Seq<char>) -> Seq<char> {
    match last_index_of(path, '/') {
        Some(k) => path.skip(k + 1),
        None => path,
    }
}

/// The extension of a file name: the text after its last `.`, unless the
/// name has no `.` or its only `.` is its first character.
pub open spec fn name_extension(name: Seq<char>) -> Option<Seq<char>> {
    match last_index_of(name, '.') {
        Some(k) => if k == 0 {
            None
        } else {
            Some(name.skip(k + 1))
        },
        None => None,
    }
}

/// Whether `path` reads the same under every platform's path syntax: no `\`,
/// no `:` (so no drive or other prefix) and no leading `//`.
pub open spec fn plain_path(path: Seq<char>) -> bool {
    &&& !path.contains('\\')
    &&& !path.contains(':')
    &&& !(path.len() >= 2 && path[0] == '/' && path[1] == '/')
}

/// Whether `name` is a file name: not empty, and neither `.` nor `..`.
pub open spec fn is_file_name(name: Seq<char>) -> bool {
    name.len() > 0 && name != seq!['.'] && name != seq!['.', '.']
}

/// The extension of `path` where every platform agrees on it: that of its
/// last `/`-separated part, when the path is plain and that part is a file name.
pub open spec fn known_extension(path: Seq<char>) -> bool {
    plain_path(path) && is_file_name(last_part(path))
}

/// The view of an optional string.
pub open spec fn opt_string_view(o: Option<String>) -> Option<Seq<char>> {
    match o {
        Some(s) => Some(s@),
        None => None,
    }
}

/// Trusted: `std::path::Path::extension`, read as text. The extension is the
/// part of the path's file name after its last `.`, or none when the name has
/// no `.` or starts with its only `.`; the file name is the last component.
/// Stated: the extension, written after a `.`, occurs in the path and holds
/// no `/`; and for a path without `\`, `:` or a leading `//` whose last
/// `/`-separated part is a file name (not empty, `.` or `..`), that part is
/// the file name on every platform, so the extension is the text after its
/// last `.` as above. Not stated: the extension of other paths, whose
/// components depend on the platform's path syntax.
#[verifier::external_body]
fn path_extension(path: &str) -> (r: Option<String>)
    ensures
        r matches Some(e) ==> contains_seq(path@, seq!['.'] + e@) && !e@.contains('/'),
        known_extension(path@) ==> opt_string_view(r) == name_extension(last_part(path@)),
{
    match std::path::Path::new(path).extension() {
        Some(e) => Some(e.to_string_lossy().into_owned()),
        None => None,
    }
}

/// Whether a file with extension `ext` (or none) is scanned: files without an
/// extension are, others unless their lower-cased extension is a binary one.
pub open spec fn extension_scannable(ext: Option<Seq<char>>) -> bool {
    match ext {
        None => true,
        Some(e) => !binary_extensions().contains(lowercase_of(e)),
    }
}

/// The view of an optional extension.
pub open spec fn opt_str_view(o: Option<&str>) -> Option<Seq<char>> {
    match o {
        Some(s) => Some(s@),
        None => None,
    }
}

/// Whether a file whose path has extension `ext` (or none) is scanned.
pub fn extension_is_scannable(ext: Option<&str>) -> (r: bool)
    ensures
        r == extension_scannable(opt_str_view(ext)),
        ext matches Some(e) ==> (all_ascii(e@) ==> r == !binary_extensions().contains(ascii_lowercase(e@))),
{
    match ext {
        None => true,
        Some(e) => {
            let lower = to_lowercase(e);
            !is_binary_extension(lower.as_str())
        },
    }
}

/// Check if a file is likely a text source file we should scan.
///
/// Files without an extension (Makefile, Dockerfile, ...) are scanned; files
/// whose extension, lower-cased, is a known binary one are not.
pub fn is_scannable(path: &str) -> (r: bool)
    ensures
        known_extension(path@) ==> r == extension_scannable(name_extension(last_part(path@))),
        known_extension(path@) ==> (name_extension(last_part(path@)) matches Some(e) ==> (all_ascii(e)
            ==> r == !binary_extensions().contains(ascii_lowercase(e)))),
        exists|ext: Option<Seq<char>>|
            {
                &&& (ext matches Some(e) ==> contains_seq(path@, seq!['.'] + e) && !e.contains('/'))
                &&& r == extension_scannable(ext)
            },
{
    let ext = path_extension(path);
    match ext {
        None => {
            let r = extension_is_scannable(None);
            assert(r == extension_scannable(None::<Seq<char>>));
            r
        },
        Some(e) => {
            let r = extension_is_scannable(Some(e.as_str()));
            assert(r == extension_scannable(Some(e@)));
            r
        },
    }
}

/// What the scan reads of a directory entry.
pub struct EntryInfo {
    /// Depth below the root of the walk (the root itself is at depth 0)
    pub depth: usize,
    /// The entry's file name
    pub name: String,
    /// Whether the entry is a directory
    pub is_dir: bool,
}

/// Whether an entry is skipped: never the root; otherwise hidden entries, and
/// directories with a skipped name.
pub open spec fn ignored(depth: nat, name: Seq<char>, is_dir: bool) -> bool {
    depth != 0 && ((name.len() > 0 && name[0] == '.') || (is_dir && skipped_dirs().contains(name)))
}

/// Returns true if a directory entry should be skipped.
pub fn is_ignored(entry: &EntryInfo) -> (r: bool)
    ensures
        r == ignored(entry.depth as nat, entry.name@, entry.is_dir),
{
    if entry.depth == 0 {
        return false;
    }
    let name = chars_of(entry.name.as_str());
    if name.len() > 0 && name[0] == '.' {
        return true;
    }
    if entry.is_dir {
        let list = skipped_dir_list();
        let r = is_listed(&list, &name);
        proof {
            if r {
                let i = choose|i: int| 0 <= i < list@.len() && #[trigger] list@[i]@ == name@;
                assert(skipped_dirs()[i] == entry.name@);
            } else {
                assert forall|i: int| 0 <= i < skipped_dirs().len() implies skipped_dirs()[i] != entry.name@ by {
                    assert(list@[i]@ == skipped_dirs()[i]);
                }
            }
        }
        return r;
    }
    false
}

/// The first `\n` at or after `i`.
pub open spec fn newline_from(s: Seq<char>, i: int) -> Option<int>
    decreases s.len() - i,
{
    if i < 0 || i >= s.len() {
        None
    } else if s[i] == '\n' {
        Some(i)
    } else {
        newline_from(s, i + 1)
    }
}

/// A newline found from `i` on lies at or after `i` and inside `s`.
pub proof fn lemma_newline_from_bounds(s: Seq<char>, i: int)
    ensures
        newline_from(s, i) matches Some(k) ==> 0 <= i <= k < s.len() && s[k] == '\n',
    decreases s.len() - i,
{
    if 0 <= i < s.len() && s[i] != '\n' {
        lemma_newline_from_bounds(s, i + 1);
    }
}

/// A line without the `\r` of a `\r\n` ending.
pub open spec fn strip_cr(l: Seq<char>) -> Seq<char> {
    if l.len() > 0 && l.last() == '\r' {
        l.drop_last()
    } else {
        l
    }
}

/// The lines of `s` from `i` on, as `str::lines` gives them: split after each
/// `\n`, the `\n` (or `\r\n`) removed, and no empty line after a final `\n`.
pub open spec fn lines_from(s: Seq<char>, i: int) -> Seq<Seq<char>>
    decreases s.len() - i,
{
    if i < 0 || i >= s.len() {
        Seq::empty()
    } else {
        proof {
            lemma_newline_from_bounds(s, i);
        }
        match newline_from(s, i) {
            Some(k) => seq![strip_cr(s.subrange(i, k))] + lines_from(s, k + 1),
            None => seq![s.subrange(i, s.len() as int)],
        }
    }
}

/// The items found in the first `k` of `lines`, the first line being line 1.
pub open spec fn scanned(lines: Seq<Seq<char>>, file: Seq<char>, k: nat) -> Seq<ItemView>
    decreases k,
{
    if k == 0 || k > lines.len() {
        Seq::empty()
    } else {
        let prev = scanned(lines, file, (k - 1) as nat);
        match parsed_item(lines[k - 1], file, k) {
            Some(v) => prev.push(v),
            None => prev,
        }
    }
}

/// One step through the lines: the line that starts at `i` ends at `end`
/// (before its `\n` or `\r\n`) and the next one starts at `next`.
proof fn lemma_line_step(s: Seq<char>, i: int, end: int, next: int)
    requires
        0 <= i < s.len(),
        match newline_from(s, i) {
            Some(nl) => next == nl + 1 && (if nl > i && s[nl - 1] == '\r' { end == nl - 1 } else { end == nl }),
            None => end == s.len() && next == s.len(),
        },
    ensures
        i <= end <= s.len(),
        i < next <= s.len(),
        lines_from(s, i).len() > 0,
        lines_from(s, i)[0] == s.subrange(i, end),
        lines_from(s, i).drop_first() == lines_from(s, next),
{
    lemma_newline_from_bounds(s, i);
    match newline_from(s, i) {
        Some(nl) => {
            let l = s.subrange(i, nl);
            if nl > i && s[nl - 1] == '\r' {
                assert(l.drop_last() =~= s.subrange(i, end));
            } else {
                assert(l =~= s.subrange(i, end));
            }
            assert(strip_cr(l) == s.subrange(i, end));
            assert((seq![strip_cr(l)] + lines_from(s, nl + 1)).drop_first() =~= lines_from(s, nl + 1));
        },
        None => {
            assert((seq![s.subrange(i, s.len() as int)]).drop_first() =~= lines_from(s, next));
        },
    }
}

fn newline_exec(s: &Vec<char>, i: usize) -> (r: Option<usize>)
    requires
        i <= s.len(),
    ensures
        match r {
            Some(k) => newline_from(s@, i as int) == Some(k as int) && i <= k < s.len(),
            None => newline_from(s@, i as int) is None,
        },
{
    let mut j = i;
    while j < s.len()
        invariant
            i <= j <= s.len(),
            newline_from(s@, j as int) == newline_from(s@, i as int),
        decreases s.len() - j,
    {
        if s[j] == '\n' {
            return Some(j);
        }
        j = j + 1;
    }
    None
}

/// The TODO items in the text of a file, line by line (the first line is
/// line 1), each recorded with the file's path.
pub fn scan_text(content: &str, file: &str) -> (r: Vec<TodoItem>)
    ensures
        item_views(r@) == scanned(lines_from(content@, 0), file@, lines_from(content@, 0).len()),
{
    let s = chars_of(content);
    let ghost all = lines_from(s@, 0);
    let mut items: Vec<TodoItem> = Vec::new();
    let mut i: usize = 0;
    let mut k: usize = 0;
    while i < s.len()
        invariant
            s@ == content@,
            all == lines_from(s@, 0),
            i <= s.len(),
            k <= i,
            k <= all.len(),
            all.skip(k as int) == lines_from(s@, i as int),
            item_views(items@) == scanned(all, file@, k as nat),
        decreases s.len() - i,
    {
        let (end, next) = match newline_exec(&s, i) {
            Some(nl) => {
                if nl > i && s[nl - 1] == '\r' {
                    (nl - 1, nl + 1)
                } else {
                    (nl, nl + 1)
                }
            },
            None => (s.len(), s.len()),
        };
        proof {
            lemma_line_step(s@, i as int, end as int, next as int);
            assert(all.skip(k as int)[0] == all[k as int]);
            assert(all.skip(k + 1) =~= all.skip(k as int).drop_first());
        }
        let line = string_from_chars(copy_range(&s, i, end).as_slice());
        let found = parse_line(line.as_str(), file, k + 1);
        let ghost before = items@;
        match found {
            Some(item) => {
                items.push(item);
                assert(item_views(items@) =~= item_views(before).push(item@));
            },
            None => {},
        }
        i = next;
        k = k + 1;
    }
    proof {
        assert(all.skip(k as int).len() == 0);
    }
    items
}

} // verus!

verus! {

/// The items of a file's text lie on distinct lines, in increasing order;
/// each records its file, and its raw line is the text of the line it
/// numbers (the first line being line 1).
pub proof fn lemma_scanned_lines(lines: Seq<Seq<char>>, file: Seq<char>, k: nat)
    requires
        k <= lines.len(),
    ensures
        forall|i: int| 0 <= i < scanned(lines, file, k).len() ==> {
            let v = #[trigger] scanned(lines, file, k)[i];
            &&& 1 <= v.line <= k
            &&& v.raw_line == lines[v.line - 1]
            &&& v.file == file
        },
        forall|i: int, j: int| 0 <= i < j < scanned(lines, file, k).len() ==>
            (#[trigger] scanned(lines, file, k)[i]).line < (#[trigger] scanned(lines, file, k)[j]).line,
    decreases k,
{
    if k > 0 {
        lemma_scanned_lines(lines, file, (k - 1) as nat);
        let prev = scanned(lines, file, (k - 1) as nat);
        let cur = scanned(lines, file, k);
        if let Some(v) = parsed_item(lines[k - 1], file, k) {
            assert(cur == prev.push(v));
            assert forall|i: int| 0 <= i < cur.len() implies {
                let w = #[trigger] cur[i];
                &&& 1 <= w.line <= k
                &&& w.raw_line == lines[w.line - 1]
                &&& w.file == file
            } by {
                if i < prev.len() {
                    assert(cur[i] == prev[i]);
                }
            }
            assert forall|i: int, j: int| 0 <= i < j < cur.len() implies (#[trigger] cur[i]).line < (#[trigger] cur[j]).line by {
                assert(cur[i] == prev[i]);
                if j < prev.len() {
                    assert(cur[j] == prev[j]);
                }
            }
        }
    }
}

} // verus!


verus! {

/// Whether a directory entry's file is scanned: it must be a regular file
/// whose path is scannable (see `is_scannable`).
pub fn should_scan(is_file: bool, path: &str) -> (r: bool)
    ensures
        !is_file ==> !r,
        is_file && known_extension(path@) ==> r == extension_scannable(name_extension(last_part(path@))),
        is_file && known_extension(path@) ==> (name_extension(last_part(path@)) matches Some(e) ==> (all_ascii(e)
            ==> r == !binary_extensions().contains(ascii_lowercase(e)))),
        is_file ==> exists|ext: Option<Seq<char>>|
            {
                &&& (ext matches Some(e) ==> contains_seq(path@, seq!['.'] + e) && !e.contains('/'))
                &&& r == extension_scannable(ext)
            },
{
    is_file && is_scannable(path)
}

} // verus!
