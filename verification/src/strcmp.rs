//! Lexicographic order on strings, by character code point: the total,
//! locale-independent comparison that sorting and deduplication use.

use vstd::prelude::*;
use vstd::string::*;

verus! {

/// `a` comes strictly before `b` in lexicographic order on code points.
pub open spec fn seq_lt(a: Seq<char>, b: Seq<char>) -> bool
    decreases a.len(),
{
    if b.len() == 0 {
        false
    } else if a.len() == 0 {
        true
    } else if a[0] != b[0] {
        (a[0] as u32) < (b[0] as u32)
    } else {
        seq_lt(a.drop_first(), b.drop_first())
    }
}

/// `a` comes before `b` or equals it.
pub open spec fn seq_le(a: Seq<char>, b: Seq<char>) -> bool {
    seq_lt(a, b) || a == b
}

/// Exactly one of `a < b`, `a == b`, `b < a` holds.
pub proof fn lemma_trichotomy(a: Seq<char>, b: Seq<char>)
    ensures
        seq_lt(a, b) || a == b || seq_lt(b, a),
        seq_lt(a, b) ==> a != b && !seq_lt(b, a),
        a == b ==> !seq_lt(a, b),
    decreases a.len(),
{
    if b.len() == 0 {
        if a.len() == 0 {
            assert(a =~= b);
        }
    } else if a.len() == 0 {
    } else if a[0] != b[0] {
        assert((a[0] as u32) != (b[0] as u32)) by {
            if (a[0] as u32) == (b[0] as u32) {
                vstd::utf8::char_u32_cast(a[0], a[0] as u32);
                vstd::utf8::char_u32_cast(b[0], b[0] as u32);
            }
        }
    } else {
        lemma_trichotomy(a.drop_first(), b.drop_first());
        if a.drop_first() == b.drop_first() {
            assert forall|k: int| 0 <= k < a.len() implies a[k] == b[k] by {
                if k > 0 {
                    assert(a[k] == a.drop_first()[k - 1]);
                    assert(b[k] == b.drop_first()[k - 1]);
                }
            }
            assert(a =~= b);
        }
        if a == b {
            assert(a.drop_first() =~= b.drop_first());
        }
    }
}

/// Two sequences over the same element set contain the same strings.
proof fn lemma_same_set_contains(s1: Seq<Seq<char>>, s2: Seq<Seq<char>>, x: Seq<char>)
    requires
        s1.to_set() == s2.to_set(),
        s1.contains(x),
    ensures
        s2.contains(x),
{
    assert(s1.to_set().contains(x));
    assert(s2.to_set().contains(x));
}

/// Strict lexicographic order is transitive.
pub proof fn lemma_lt_trans(a: Seq<char>, b: Seq<char>, c: Seq<char>)
    requires
        seq_lt(a, b),
        seq_lt(b, c),
    ensures
        seq_lt(a, c),
    decreases a.len(),
{
    if a.len() == 0 {
    } else {
        if a[0] == b[0] && b[0] == c[0] {
            lemma_lt_trans(a.drop_first(), b.drop_first(), c.drop_first());
        } else {
            assert((a[0] as u32) <= (b[0] as u32));
            assert((b[0] as u32) <= (c[0] as u32));
            assert((a[0] as u32) < (c[0] as u32));
        }
    }
}

/// The strings of `s` are pairwise strictly increasing: sorted, and free of
/// duplicates.
pub open spec fn sorted_strict(s: Seq<Seq<char>>) -> bool {
    forall|i: int, j: int| 0 <= i < j < s.len() ==> seq_lt(s[i], s[j])
}

/// A strictly sorted sequence is determined by the set of its elements: any
/// two strictly sorted sequences over the same set are equal.
pub proof fn lemma_sorted_strict_unique(s1: Seq<Seq<char>>, s2: Seq<Seq<char>>)
    requires
        sorted_strict(s1),
        sorted_strict(s2),
        s1.to_set() == s2.to_set(),
    ensures
        s1 == s2,
    decreases s1.len(),
{
    if s1.len() == 0 {
        if s2.len() > 0 {
            assert(s2.contains(s2[0]));
            lemma_same_set_contains(s2, s1, s2[0]);
            assert(false);
        }
        assert(s1 =~= s2);
    } else {
        assert(s2.len() > 0) by {
            if s2.len() == 0 {
                assert(s1.contains(s1[0]));
                lemma_same_set_contains(s1, s2, s1[0]);
            }
        }
        assert(s1[0] == s2[0]) by {
            assert(s1.contains(s1[0]));
            lemma_same_set_contains(s1, s2, s1[0]);
            let j = choose|j: int| 0 <= j < s2.len() && s2[j] == s1[0];
            if j != 0 {
                assert(seq_lt(s2[0], s2[j]));
            }
            assert(seq_le(s2[0], s1[0]));
            assert(s2.contains(s2[0]));
            lemma_same_set_contains(s2, s1, s2[0]);
            let i = choose|i: int| 0 <= i < s1.len() && s1[i] == s2[0];
            if i != 0 {
                assert(seq_lt(s1[0], s1[i]));
            }
            assert(seq_le(s1[0], s2[0]));
            lemma_trichotomy(s1[0], s2[0]);
        }
        let t1 = s1.drop_first();
        let t2 = s2.drop_first();
        assert forall|x: Seq<char>| t1.contains(x) implies s1.contains(x) && x != s1[0] by {
            let k = choose|k: int| 0 <= k < t1.len() && t1[k] == x;
            assert(t1[k] == s1[k + 1]);
            assert(seq_lt(s1[0], s1[k + 1]));
            lemma_trichotomy(s1[0], s1[k + 1]);
        }
        assert forall|x: Seq<char>| s1.contains(x) && x != s1[0] implies t1.contains(x) by {
            let k = choose|k: int| 0 <= k < s1.len() && s1[k] == x;
            assert(t1[k - 1] == s1[k]);
        }
        assert forall|x: Seq<char>| t2.contains(x) implies s2.contains(x) && x != s2[0] by {
            let k = choose|k: int| 0 <= k < t2.len() && t2[k] == x;
            assert(t2[k] == s2[k + 1]);
            assert(seq_lt(s2[0], s2[k + 1]));
            lemma_trichotomy(s2[0], s2[k + 1]);
        }
        assert forall|x: Seq<char>| s2.contains(x) && x != s2[0] implies t2.contains(x) by {
            let k = choose|k: int| 0 <= k < s2.len() && s2[k] == x;
            assert(t2[k - 1] == s2[k]);
        }
        assert forall|x: Seq<char>| t1.to_set().contains(x) implies t2.to_set().contains(x) by {
            assert(t1.contains(x));
            lemma_same_set_contains(s1, s2, x);
            assert(t2.contains(x));
        }
        assert forall|x: Seq<char>| t2.to_set().contains(x) implies t1.to_set().contains(x) by {
            assert(t2.contains(x));
            lemma_same_set_contains(s2, s1, x);
            assert(t1.contains(x));
        }
        assert(t1.to_set() =~= t2.to_set());
        lemma_sorted_strict_unique(t1, t2);
        assert forall|k: int| 0 <= k < s1.len() implies s1[k] == s2[k] by {
            if k > 0 {
                assert(s1[k] == t1[k - 1]);
                assert(s2[k] == t2[k - 1]);
            }
        }
        assert(s1 =~= s2);
    }
}

/// Whether two strings hold the same characters.
pub fn str_eq(a: &str, b: &str) -> (r: bool)
    ensures
        r == (a@ == b@),
{
    let alen = a.unicode_len();
    let blen = b.unicode_len();
    if alen != blen {
        return false;
    }
    let mut i: usize = 0;
    while i < alen
        invariant
            alen == a@.len(),
            alen == b@.len(),
            i <= alen,
            forall|j: int| 0 <= j < i ==> a@[j] == b@[j],
        decreases alen - i,
    {
        if a.get_char(i) != b.get_char(i) {
            return false;
        }
        i = i + 1;
    }
    proof {
        assert(a@ =~= b@);
    }
    true
}

/// Whether `a` comes strictly before `b` in lexicographic order.
pub fn str_lt(a: &str, b: &str) -> (r: bool)
    ensures
        r == seq_lt(a@, b@),
{
    let alen = a.unicode_len();
    let blen = b.unicode_len();
    let mut i: usize = 0;
    proof {
        assert(a@.skip(0) =~= a@);
        assert(b@.skip(0) =~= b@);
    }
    while i < alen && i < blen
        invariant
            alen == a@.len(),
            blen == b@.len(),
            i <= alen,
            i <= blen,
            seq_lt(a@, b@) == seq_lt(a@.skip(i as int), b@.skip(i as int)),
        decreases alen - i,
    {
        let ca = a.get_char(i);
        let cb = b.get_char(i);
        if ca != cb {
            proof {
                assert(a@.skip(i as int)[0] == ca);
                assert(b@.skip(i as int)[0] == cb);
            }
            return (ca as u32) < (cb as u32);
        }
        proof {
            assert(a@.skip(i as int).drop_first() =~= a@.skip(i + 1));
            assert(b@.skip(i as int).drop_first() =~= b@.skip(i + 1));
            assert(a@.skip(i as int)[0] == b@.skip(i as int)[0]);
        }
        i = i + 1;
    }
    proof {
        assert(a@.skip(i as int).len() == alen - i);
        assert(b@.skip(i as int).len() == blen - i);
    }
    alen < blen
}

} // verus!
