//! Text predicates for the listing filters and the name ordering:
//! ASCII case folding, case-insensitive substring match, and a
//! lexicographic order on character sequences.

use vstd::prelude::*;

verus! {

/// ASCII case folding of one character: upper-case letters map to their
/// lower-case counterpart, everything else is unchanged.
pub open spec fn fold_char(c: char) -> char {
    if 'A' <= c && c <= 'Z' {
        ((c as u8) + 32) as char
    } else {
        c
    }
}

/// Whether `needle` occurs in `hay` at position `i`, compared case-insensitively.
pub open spec fn matches_at(hay: Seq<char>, needle: Seq<char>, i: int) -> bool {
    &&& 0 <= i
    &&& i + needle.len() <= hay.len()
    &&& forall|j: int| 0 <= j < needle.len() ==> fold_char(hay[i + j]) == #[trigger] fold_char(needle[j])
}

/// The case-insensitive substring predicate behind the optional name filter.
pub open spec fn contains_ci(hay: Seq<char>, needle: Seq<char>) -> bool {
    exists|i: int| matches_at(hay, needle, i)
}

fn fold_char_exec(c: char) -> (r: char)
    ensures
        r == fold_char(c),
{
    if 'A' <= c && c <= 'Z' {
        ((c as u8) + 32) as char
    } else {
        c
    }
}

/// Case-insensitive substring search; the executable side of `contains_ci`.
pub fn contains_substring_ci(hay: &str, needle: &str) -> (r: bool)
    ensures
        r == contains_ci(hay@, needle@),
{
    let n = hay.unicode_len();
    let m = needle.unicode_len();
    if m > n {
        return false;
    }
    let mut i: usize = 0;
    while i <= n - m
        invariant
            m <= n,
            n == hay@.len(),
            m == needle@.len(),
            i <= n - m + 1,
            forall|k: int| 0 <= k < i ==> !matches_at(hay@, needle@, k),
        decreases n - m - i + 1,
    {
        let mut j: usize = 0;
        let mut all_eq: bool = true;
        while j < m
            invariant
                m <= n,
                n == hay@.len(),
                m == needle@.len(),
                i + m <= n,
                j <= m,
                all_eq || j == m,
                all_eq <==> forall|q: int| 0 <= q < j
                    ==> fold_char(hay@[i + q]) == #[trigger] fold_char(needle@[q]),
            decreases m - j,
        {
            let hc = hay.get_char(i + j);
            let nc = needle.get_char(j);
            if fold_char_exec(hc) != fold_char_exec(nc) {
                all_eq = false;
                j = m;
            } else {
                proof {
                    assert(forall|q: int| 0 <= q < j
                        ==> fold_char(hay@[i + q]) == #[trigger] fold_char(needle@[q]));
                    assert(fold_char(hay@[i + j]) == fold_char(needle@[j as int]));
                }
                j = j + 1;
            }
        }
        if all_eq {
            proof {
                assert(matches_at(hay@, needle@, i as int));
            }
            return true;
        }
        proof {
            assert(!matches_at(hay@, needle@, i as int));
        }
        i = i + 1;
    }
    proof {
        assert forall|k: int| !matches_at(hay@, needle@, k) by {
            if 0 <= k && k + needle@.len() <= hay@.len() {
                assert(k < i);
            }
        }
    }
    false
}

/// Strict lexicographic order on character sequences, by code point.
pub open spec fn lex_lt(a: Seq<char>, b: Seq<char>) -> bool
    decreases a.len(),
{
    if b.len() == 0 {
        false
    } else if a.len() == 0 {
        true
    } else if (a[0] as int) < (b[0] as int) {
        true
    } else if a[0] == b[0] {
        lex_lt(a.drop_first(), b.drop_first())
    } else {
        false
    }
}

/// Lexicographic comparison of two strings; the executable side of `lex_lt`.
pub fn str_lt(a: &str, b: &str) -> (r: bool)
    ensures
        r == lex_lt(a@, b@),
{
    let an = a.unicode_len();
    let bn = b.unicode_len();
    let mut i: usize = 0;
    proof {
        assert(a@.skip(0) =~= a@);
        assert(b@.skip(0) =~= b@);
    }
    loop
        invariant
            an == a@.len(),
            bn == b@.len(),
            i <= an,
            i <= bn,
            lex_lt(a@, b@) == lex_lt(a@.skip(i as int), b@.skip(i as int)),
            forall|q: int| 0 <= q < i ==> a@[q] == b@[q],
        decreases an - i,
    {
        if i >= bn {
            proof {
                assert(b@.skip(i as int).len() == 0);
            }
            return false;
        }
        if i >= an {
            proof {
                assert(a@.skip(i as int).len() == 0);
                assert(b@.skip(i as int).len() > 0);
            }
            return true;
        }
        let ac = a.get_char(i);
        let bc = b.get_char(i);
        proof {
            assert(a@.skip(i as int)[0] == a@[i as int]);
            assert(b@.skip(i as int)[0] == b@[i as int]);
            assert(a@.skip(i as int).drop_first() =~= a@.skip(i as int + 1));
            assert(b@.skip(i as int).drop_first() =~= b@.skip(i as int + 1));
        }
        if (ac as u32) < (bc as u32) {
            return true;
        }
        if ac != bc {
            return false;
        }
        i = i + 1;
    }
}

/// `lex_lt` orders any two distinct sequences one way or the other.
pub proof fn lemma_lex_lt_connected(a: Seq<char>, b: Seq<char>)
    ensures
        a =~= b || lex_lt(a, b) || lex_lt(b, a),
    decreases a.len(),
{
    if b.len() == 0 || a.len() == 0 {
    } else if (a[0] as int) < (b[0] as int) || (b[0] as int) < (a[0] as int) {
        
    } else {
        assert(a[0] as int == b[0] as int);
        assert(a[0] == b[0]);
        lemma_lex_lt_connected(a.drop_first(), b.drop_first());
        if a.drop_first() =~= b.drop_first() {
            assert(a =~= b) by {
                assert(a == seq![a[0]] + a.drop_first());
                assert(b == seq![b[0]] + b.drop_first());
            }
        }
    }
}

/// `lex_lt` is irreflexive.
pub proof fn lemma_lex_lt_irreflexive(a: Seq<char>)
    ensures
        !lex_lt(a, a),
    decreases a.len(),
{
    if a.len() > 0 {
        lemma_lex_lt_irreflexive(a.drop_first());
    }
}

/// `lex_lt` is transitive.
pub proof fn lemma_lex_lt_transitive(a: Seq<char>, b: Seq<char>, c: Seq<char>)
    requires
        lex_lt(a, b),
        lex_lt(b, c),
    ensures
        lex_lt(a, c),
    decreases a.len(),
{
    if a.len() == 0 {
        assert(b.len() > 0);
        assert(c.len() > 0);
    } else {
        assert(b.len() > 0 && c.len() > 0);
        if (a[0] as int) < (b[0] as int) {
            if (b[0] as int) < (c[0] as int) {
            } else {
                assert(b[0] == c[0]);
            }
        } else {
            assert(a[0] == b[0]);
            if (b[0] as int) < (c[0] as int) {
                assert((a[0] as int) < (c[0] as int));
            } else {
                assert(b[0] == c[0]);
                assert(a[0] == c[0]);
                lemma_lex_lt_transitive(a.drop_first(), b.drop_first(), c.drop_first());
            }
        }
    }
}

/// String equality on views, decided through the lexicographic order.
pub fn str_eq(a: &str, b: &str) -> (r: bool)
    ensures
        r == (a@ == b@),
{
    proof {
        lemma_lex_lt_connected(a@, b@);
        lemma_lex_lt_irreflexive(a@);
    }
    if str_lt(a, b) {
        false
    } else if str_lt(b, a) {
        false
    } else {
        true
    }
}

} // verus!
