//! Lexicographic order on character sequences.
//!
//! Month labels ("YYYY-MM") are compared lexicographically, which for
//! zero-padded year-month strings coincides with chronological order.

use vstd::prelude::*;

verus! {

/// Strict lexicographic order on character sequences, by code point.
pub open spec fn lex_lt(a: Seq<char>, b: Seq<char>) -> bool
    decreases a.len(),
{
    if b.len() == 0 {
        false
    } else if a.len() == 0 {
        true
    } else if a[0] < b[0] {
        true
    } else if b[0] < a[0] {
        false
    } else {
        lex_lt(a.subrange(1, a.len() as int), b.subrange(1, b.len() as int))
    }
}

/// Non-strict lexicographic order.
pub open spec fn lex_le(a: Seq<char>, b: Seq<char>) -> bool {
    lex_lt(a, b) || a == b
}

/// The order is asymmetric, and strictly ordered sequences are distinct.
pub proof fn lemma_lex_lt_asym(a: Seq<char>, b: Seq<char>)
    ensures
        lex_lt(a, b) ==> !lex_lt(b, a) && a != b,
    decreases a.len(),
{
    if b.len() == 0 {
        assert(!lex_lt(a, b));
    } else if a.len() == 0 {
        assert(!lex_lt(b, a));
        assert(a.len() != b.len());
    } else if a[0] < b[0] {
        assert(!lex_lt(b, a));
        if a == b {
            assert(a[0] == b[0]);
        }
    } else if b[0] < a[0] {
        assert(!lex_lt(a, b));
    } else {
        let at = a.subrange(1, a.len() as int);
        let bt = b.subrange(1, b.len() as int);
        lemma_lex_lt_asym(at, bt);
        assert(lex_lt(a, b) == lex_lt(at, bt));
        assert(lex_lt(b, a) == lex_lt(bt, at));
        if lex_lt(a, b) && a == b {
            assert(at == bt);
        }
    }
}

/// Any two sequences are ordered one way or the other, or equal.
pub proof fn lemma_lex_total(a: Seq<char>, b: Seq<char>)
    ensures
        lex_lt(a, b) || lex_lt(b, a) || a == b,
    decreases a.len(),
{
    if a.len() == 0 && b.len() == 0 {
        assert(a =~= b);
    } else if a.len() == 0 || b.len() == 0 {
        assert(lex_lt(a, b) || lex_lt(b, a));
    } else if a[0] < b[0] {
        assert(lex_lt(a, b));
    } else if b[0] < a[0] {
        assert(lex_lt(b, a));
    } else {
        let at = a.subrange(1, a.len() as int);
        let bt = b.subrange(1, b.len() as int);
        lemma_lex_total(at, bt);
        assert(lex_lt(a, b) == lex_lt(at, bt));
        assert(lex_lt(b, a) == lex_lt(bt, at));
        if at == bt {
            assert(a.len() == b.len());
            assert forall|i: int| 0 <= i < a.len() implies a[i] == b[i] by {
                if i == 0 {
                    assert(a[0] == b[0]);
                } else {
                    assert(at[i - 1] == a[i]);
                    assert(bt[i - 1] == b[i]);
                }
            }
            assert(a =~= b);
        }
    }
}

/// The strict order is transitive.
pub proof fn lemma_lex_trans(a: Seq<char>, b: Seq<char>, c: Seq<char>)
    requires
        lex_lt(a, b),
        lex_lt(b, c),
    ensures
        lex_lt(a, c),
    decreases a.len(),
{
    assert(c.len() > 0);
    if a.len() == 0 {
        assert(lex_lt(a, c));
    } else {
        assert(b.len() > 0);
        if a[0] < c[0] {
            assert(lex_lt(a, c));
        } else {
            assert(a[0] <= b[0]);
            assert(b[0] <= c[0]);
            assert(a[0] == b[0]);
            assert(b[0] == c[0]);
            let at = a.subrange(1, a.len() as int);
            let bt = b.subrange(1, b.len() as int);
            let ct = c.subrange(1, c.len() as int);
            assert(lex_lt(at, bt));
            assert(lex_lt(bt, ct));
            lemma_lex_trans(at, bt, ct);
            assert(lex_lt(a, c) == lex_lt(at, ct));
        }
    }
}

/// Compares two strings in the strict lexicographic order.
pub fn str_lt(a: &str, b: &str) -> (r: bool)
    ensures
        r == lex_lt(a@, b@),
{
    let alen = a.unicode_len();
    let blen = b.unicode_len();
    let mut i: usize = 0;
    proof {
        assert(a@.subrange(0, alen as int) =~= a@);
        assert(b@.subrange(0, blen as int) =~= b@);
    }
    while i < alen && i < blen && a.get_char(i) == b.get_char(i)
        invariant
            i <= alen,
            i <= blen,
            alen == a@.len(),
            blen == b@.len(),
            lex_lt(a@, b@) == lex_lt(
                a@.subrange(i as int, alen as int),
                b@.subrange(i as int, blen as int),
            ),
        decreases alen - i,
    {
        proof {
            let asuf = a@.subrange(i as int, alen as int);
            let bsuf = b@.subrange(i as int, blen as int);
            assert(asuf[0] == a@[i as int]);
            assert(bsuf[0] == b@[i as int]);
            assert(asuf.subrange(1, asuf.len() as int) =~= a@.subrange(
                i as int + 1,
                alen as int,
            ));
            assert(bsuf.subrange(1, bsuf.len() as int) =~= b@.subrange(
                i as int + 1,
                blen as int,
            ));
        }
        i = i + 1;
    }
    proof {
        let asuf = a@.subrange(i as int, alen as int);
        let bsuf = b@.subrange(i as int, blen as int);
        if i < alen && i < blen {
            assert(asuf[0] == a@[i as int]);
            assert(bsuf[0] == b@[i as int]);
        } else if i == alen && i == blen {
            assert(asuf.len() == 0 && bsuf.len() == 0);
        } else if i == alen {
            assert(asuf.len() == 0 && bsuf.len() > 0);
        } else {
            assert(bsuf.len() == 0 && asuf.len() > 0);
        }
    }
    if i < alen && i < blen {
        a.get_char(i) < b.get_char(i)
    } else {
        alen < blen
    }
}

/// Compares two strings in the non-strict lexicographic order.
pub fn str_le(a: &str, b: &str) -> (r: bool)
    ensures
        r == lex_le(a@, b@),
{
    let gt = str_lt(b, a);
    proof {
        lemma_lex_total(a@, b@);
        lemma_lex_lt_asym(a@, b@);
        lemma_lex_lt_asym(b@, a@);
    }
    !gt
}

} // verus!
