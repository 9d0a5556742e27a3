//! The order of strings by their characters, which is the order of `String`'s
//! `Ord` (byte-wise order of UTF-8 is the order of code points).
use vstd::prelude::*;

use crate::text::seqs_of;

verus! {

/// Whether `a` comes strictly before `b`.
pub open spec fn lex_lt(a: Seq<char>, b: Seq<char>) -> bool
    decreases a.len(),
{
    if a.len() == 0 {
        b.len() > 0
    } else if b.len() == 0 {
        false
    } else if a[0] != b[0] {
        a[0] < b[0]
    } else {
        lex_lt(a.drop_first(), b.drop_first())
    }
}

/// No string comes before itself.
pub proof fn lemma_lex_irreflexive(a: Seq<char>)
    ensures
        !lex_lt(a, a),
    decreases a.len(),
{
    if a.len() > 0 {
        lemma_lex_irreflexive(a.drop_first());
    }
}

/// The order is transitive.
pub proof fn lemma_lex_transitive(a: Seq<char>, b: Seq<char>, c: Seq<char>)
    requires
        lex_lt(a, b),
        lex_lt(b, c),
    ensures
        lex_lt(a, c),
    decreases a.len(),
{
    if a.len() > 0 && a[0] == b[0] && b[0] == c[0] {
        lemma_lex_transitive(a.drop_first(), b.drop_first(), c.drop_first());
    }
}

/// Of two different strings, one comes before the other.
pub proof fn lemma_lex_total(a: Seq<char>, b: Seq<char>)
    requires
        a != b,
    ensures
        lex_lt(a, b) || lex_lt(b, a),
    decreases a.len(),
{
    if a.len() == 0 {
        assert(b.len() > 0) by {
            if b.len() == 0 {
                assert(a =~= b);
            }
        }
    } else if b.len() > 0 && a[0] == b[0] {
        if a.drop_first() == b.drop_first() {
            assert(a.drop_first().len() == b.drop_first().len());
            assert(a.len() == b.len());
            assert(a =~= b) by {
                assert forall|i: int| 0 <= i < a.len() implies a[i] == b[i] by {
                    if i > 0 {
                        assert(a[i] == a.drop_first()[i - 1]);
                        assert(b[i] == b.drop_first()[i - 1]);
                    }
                }
            }
        }
        lemma_lex_total(a.drop_first(), b.drop_first());
    }
}

/// Whether `fs` is in strictly increasing order.
pub open spec fn strictly_sorted(fs: Seq<Seq<char>>) -> bool {
    forall|i: int, j: int| 0 <= i < j < fs.len() ==> lex_lt(#[trigger] fs[i], #[trigger] fs[j])
}

/// Two strictly sorted sequences with the same elements are equal.
pub proof fn lemma_sorted_unique(a: Seq<Seq<char>>, b: Seq<Seq<char>>)
    requires
        strictly_sorted(a),
        strictly_sorted(b),
        forall|f: Seq<char>| a.contains(f) <==> b.contains(f),
    ensures
        a == b,
    decreases a.len(),
{
    if a.len() == 0 {
        if b.len() > 0 {
            assert(b.contains(b[0]));
        }
        assert(a =~= b);
    } else {
        assert(a.contains(a[0]));
        let j = choose|j: int| 0 <= j < b.len() && b[j] == a[0];
        assert(b.contains(b[0]));
        let k = choose|k: int| 0 <= k < a.len() && a[k] == b[0];
        if j > 0 {
            assert(lex_lt(b[0], b[j]));
            if k == 0 {
                lemma_lex_irreflexive(a[0]);
            } else {
                assert(lex_lt(a[0], a[k]));
                lemma_lex_transitive(a[0], a[k], a[0]);
                lemma_lex_irreflexive(a[0]);
            }
        }
        assert(b[0] == a[0]);
        let a1 = a.drop_first();
        let b1 = b.drop_first();
        assert forall|f: Seq<char>| a1.contains(f) <==> b1.contains(f) by {
            if a1.contains(f) {
                let i = choose|i: int| 0 <= i < a1.len() && a1[i] == f;
                assert(a[i + 1] == f);
                assert(lex_lt(a[0], a[i + 1]));
                assert(b.contains(f));
                let i2 = choose|i2: int| 0 <= i2 < b.len() && b[i2] == f;
                if i2 == 0 {
                    lemma_lex_irreflexive(a[0]);
                }
                assert(b1[i2 - 1] == f);
            }
            if b1.contains(f) {
                let i = choose|i: int| 0 <= i < b1.len() && b1[i] == f;
                assert(b[i + 1] == f);
                assert(lex_lt(b[0], b[i + 1]));
                assert(a.contains(f));
                let i2 = choose|i2: int| 0 <= i2 < a.len() && a[i2] == f;
                if i2 == 0 {
                    lemma_lex_irreflexive(a[0]);
                }
                assert(a1[i2 - 1] == f);
            }
        }
        assert(strictly_sorted(a1)) by {
            assert forall|i: int, j2: int| 0 <= i < j2 < a1.len() implies lex_lt(#[trigger] a1[i], #[trigger] a1[j2]) by {
                assert(a1[i] == a[i + 1] && a1[j2] == a[j2 + 1]);
            }
        }
        assert(strictly_sorted(b1)) by {
            assert forall|i: int, j2: int| 0 <= i < j2 < b1.len() implies lex_lt(#[trigger] b1[i], #[trigger] b1[j2]) by {
                assert(b1[i] == b[i + 1] && b1[j2] == b[j2 + 1]);
            }
        }
        lemma_sorted_unique(a1, b1);
        assert(a =~= b) by {
            assert forall|i: int| 0 <= i < a.len() implies a[i] == b[i] by {
                if i > 0 {
                    assert(a[i] == a1[i - 1]);
                    assert(b[i] == b1[i - 1]);
                }
            }
        }
    }
}

/// Whether `a` comes strictly before `b`.
pub fn lex_less(a: &Vec<char>, b: &Vec<char>) -> (r: bool)
    ensures
        r == lex_lt(a@, b@),
{
    let mut i: usize = 0;
    assert(a@.skip(0) =~= a@);
    assert(b@.skip(0) =~= b@);
    loop
        invariant
            i <= a.len(),
            i <= b.len(),
            lex_lt(a@, b@) == lex_lt(a@.skip(i as int), b@.skip(i as int)),
        decreases a.len() - i,
    {
        if i == a.len() {
            return i < b.len();
        }
        if i == b.len() {
            return false;
        }
        if a[i] != b[i] {
            return a[i] < b[i];
        }
        assert(a@.skip(i as int).drop_first() =~= a@.skip(i + 1));
        assert(b@.skip(i as int).drop_first() =~= b@.skip(i + 1));
        i = i + 1;
    }
}

/// Inserts `f` into the strictly sorted `fs` unless it is there already.
pub fn insert_sorted(fs: &mut Vec<Vec<char>>, f: Vec<char>)
    requires
        strictly_sorted(seqs_of(old(fs)@)),
    ensures
        strictly_sorted(seqs_of(final(fs)@)),
        forall|g: Seq<char>| seqs_of(final(fs)@).contains(g) <==> (seqs_of(old(fs)@).contains(g) || g == f@),
{
    let ghost old_s = seqs_of(fs@);
    let mut j: usize = 0;
    while j < fs.len() && lex_less(&fs[j], &f)
        invariant
            j <= fs.len(),
            fs@ == old(fs)@,
            old_s == seqs_of(fs@),
            forall|i: int| 0 <= i < j ==> lex_lt(#[trigger] old_s[i], f@),
        decreases fs.len() - j,
    {
        j = j + 1;
    }
    if j < fs.len() && equals_vec(&fs[j], &f) {
        assert forall|g: Seq<char>| old_s.contains(g) <==> (old_s.contains(g) || g == f@) by {
            if g == f@ {
                assert(old_s[j as int] == g);
            }
        }
        return;
    }
    proof {
        if j < fs.len() {
            lemma_lex_total(old_s[j as int], f@);
        }
    }
    fs.insert(j, f);
    let ghost new_s = seqs_of(fs@);
    assert(new_s =~= old_s.insert(j as int, f@));
    assert forall|a: int, b: int| 0 <= a < b < new_s.len() implies lex_lt(#[trigger] new_s[a], #[trigger] new_s[b]) by {
        if b < j {
            assert(new_s[a] == old_s[a] && new_s[b] == old_s[b]);
        } else if b == j {
            assert(new_s[a] == old_s[a]);
        } else if a == j {
            assert(new_s[b] == old_s[b - 1]);
            if b - 1 > j {
                lemma_lex_transitive(f@, old_s[j as int], old_s[b - 1]);
            }
        } else if a < j {
            assert(new_s[a] == old_s[a] && new_s[b] == old_s[b - 1]);
        } else {
            assert(new_s[a] == old_s[a - 1] && new_s[b] == old_s[b - 1]);
        }
    }
    assert forall|g: Seq<char>| new_s.contains(g) <==> (old_s.contains(g) || g == f@) by {
        if new_s.contains(g) {
            let i = choose|i: int| 0 <= i < new_s.len() && new_s[i] == g;
            if i < j {
                assert(old_s[i] == g);
            } else if i > j {
                assert(old_s[i - 1] == g);
            }
        }
        if old_s.contains(g) {
            let i = choose|i: int| 0 <= i < old_s.len() && old_s[i] == g;
            if i < j {
                assert(new_s[i] == g);
            } else {
                assert(new_s[i + 1] == g);
            }
        }
        if g == f@ {
            assert(new_s[j as int] == g);
        }
    }
}

fn equals_vec(a: &Vec<char>, b: &Vec<char>) -> (r: bool)
    ensures
        r == (a@ == b@),
{
    crate::text::equals_chars(a, b)
}

} // verus!

verus! {

/// A strictly sorted sequence with `f` added in its place.
pub proof fn sorted_insert_spec(fs: Seq<Seq<char>>, f: Seq<char>) -> (r: Seq<Seq<char>>)
    requires
        strictly_sorted(fs),
        !fs.contains(f),
    ensures
        strictly_sorted(r),
        forall|g: Seq<char>| r.contains(g) <==> (fs.contains(g) || g == f),
    decreases fs.len(),
{
    if fs.len() == 0 {
        let r = seq![f];
        assert forall|g: Seq<char>| r.contains(g) <==> (fs.contains(g) || g == f) by {
            if r.contains(g) {
                assert(r[0] == g);
            }
            if g == f {
                assert(r[0] == g);
            }
        }
        r
    } else {
        assert(fs.contains(fs[0]));
        lemma_lex_total(f, fs[0]);
        if lex_lt(f, fs[0]) {
            let r = seq![f] + fs;
            assert forall|a: int, b: int| 0 <= a < b < r.len() implies lex_lt(#[trigger] r[a], #[trigger] r[b]) by {
                if a == 0 {
                    if b > 1 {
                        lemma_lex_transitive(f, fs[0], fs[b - 1]);
                    }
                } else {
                    assert(r[a] == fs[a - 1] && r[b] == fs[b - 1]);
                }
            }
            assert forall|g: Seq<char>| r.contains(g) <==> (fs.contains(g) || g == f) by {
                if r.contains(g) {
                    let i = choose|i: int| 0 <= i < r.len() && r[i] == g;
                    if i > 0 {
                        assert(fs[i - 1] == g);
                    }
                }
                if fs.contains(g) {
                    let i = choose|i: int| 0 <= i < fs.len() && fs[i] == g;
                    assert(r[i + 1] == g);
                }
                if g == f {
                    assert(r[0] == g);
                }
            }
            r
        } else {
            let rest = fs.drop_first();
            assert(strictly_sorted(rest)) by {
                assert forall|a: int, b: int| 0 <= a < b < rest.len() implies lex_lt(#[trigger] rest[a], #[trigger] rest[b]) by {
                    assert(rest[a] == fs[a + 1] && rest[b] == fs[b + 1]);
                }
            }
            assert(!rest.contains(f)) by {
                if rest.contains(f) {
                    let i = choose|i: int| 0 <= i < rest.len() && rest[i] == f;
                    assert(fs[i + 1] == f);
                }
            }
            let tail = sorted_insert_spec(rest, f);
            let r = seq![fs[0]] + tail;
            assert forall|a: int, b: int| 0 <= a < b < r.len() implies lex_lt(#[trigger] r[a], #[trigger] r[b]) by {
                if a == 0 {
                    let x = tail[b - 1];
                    assert(tail.contains(x));
                    if x == f {
                    } else {
                        assert(rest.contains(x));
                        let i = choose|i: int| 0 <= i < rest.len() && rest[i] == x;
                        assert(fs[i + 1] == x);
                    }
                } else {
                    assert(r[a] == tail[a - 1] && r[b] == tail[b - 1]);
                }
            }
            assert forall|g: Seq<char>| r.contains(g) <==> (fs.contains(g) || g == f) by {
                if r.contains(g) {
                    let i = choose|i: int| 0 <= i < r.len() && r[i] == g;
                    if i > 0 {
                        assert(tail.contains(g));
                        if g != f {
                            let i2 = choose|i2: int| 0 <= i2 < rest.len() && rest[i2] == g;
                            assert(fs[i2 + 1] == g);
                        }
                    }
                }
                if fs.contains(g) {
                    let i = choose|i: int| 0 <= i < fs.len() && fs[i] == g;
                    if i == 0 {
                        assert(r[0] == g);
                    } else {
                        assert(rest[i - 1] == g);
                        assert(tail.contains(g));
                        let i2 = choose|i2: int| 0 <= i2 < tail.len() && tail[i2] == g;
                        assert(r[i2 + 1] == g);
                    }
                }
                if g == f {
                    assert(tail.contains(g));
                    let i2 = choose|i2: int| 0 <= i2 < tail.len() && tail[i2] == g;
                    assert(r[i2 + 1] == g);
                }
            }
            r
        }
    }
}

} // verus!
