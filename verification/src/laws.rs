//! General guarantees of normalization, stated and proved once for all
//! inputs.

use vstd::prelude::*;
use crate::strcmp::{lemma_trichotomy, lemma_sorted_strict_unique};
use crate::normalize::is_normalized;

verus! {

/// Normalization is deterministic: any two outputs that meet its contract for
/// the same candidates, query and policy are the same ordered list.
pub proof fn lemma_normalize_deterministic(
    cs: Seq<Seq<char>>,
    q: Seq<char>,
    with_query: bool,
    r1: Seq<Seq<char>>,
    r2: Seq<Seq<char>>,
)
    requires
        is_normalized(cs, q, with_query, r1),
        is_normalized(cs, q, with_query, r2),
    ensures
        r1 == r2,
{
    if with_query {
        lemma_sorted_strict_unique(r1.drop_first(), r2.drop_first());
        assert forall|k: int| 0 <= k < r1.len() implies r1[k] == r2[k] by {
            if k > 0 {
                assert(r1[k] == r1.drop_first()[k - 1]);
                assert(r2[k] == r2.drop_first()[k - 1]);
            }
        }
        assert(r1.len() == r2.len());
        assert(r1 =~= r2);
    } else {
        lemma_sorted_strict_unique(r1, r2);
    }
}

/// Deduplication is complete: no two results share a title, and — with the
/// policy off — the output titles are exactly the candidates' titles, each
/// kept once.
pub proof fn lemma_dedup(cs: Seq<Seq<char>>, q: Seq<char>, with_query: bool, r: Seq<Seq<char>>)
    requires
        is_normalized(cs, q, with_query, r),
    ensures
        forall|i: int, j: int| 0 <= i < j < r.len() ==> r[i] != r[j],
        !with_query ==> r.to_set() == cs.to_set(),
{
    let t = r.drop_first();
    assert forall|i: int, j: int| 0 <= i < j < r.len() implies r[i] != r[j] by {
        if with_query {
            if i == 0 {
                assert(r[j] == t[j - 1]);
                assert(t.contains(t[j - 1]));
                assert(t.to_set().contains(r[j]));
                assert(!cs.to_set().remove(q).contains(q));
            } else {
                assert(r[i] == t[i - 1]);
                assert(r[j] == t[j - 1]);
                lemma_trichotomy(t[i - 1], t[j - 1]);
            }
        } else {
            lemma_trichotomy(r[i], r[j]);
        }
    }
}

/// With the policy on, the query is always the first result and never a later
/// one — so feeding the output back through normalization cannot double it.
pub proof fn lemma_query_inclusion(cs: Seq<Seq<char>>, q: Seq<char>, r: Seq<Seq<char>>)
    requires
        is_normalized(cs, q, true, r),
    ensures
        r.len() >= 1,
        r[0] == q,
        forall|i: int| 1 <= i < r.len() ==> r[i] != q,
{
    let t = r.drop_first();
    assert forall|i: int| 1 <= i < r.len() implies r[i] != q by {
        assert(r[i] == t[i - 1]);
        assert(t.contains(t[i - 1]));
        assert(t.to_set().contains(r[i]));
        assert(!cs.to_set().remove(q).contains(q));
    }
}

/// With no candidates at all — a failed fetch, an empty body, malformed
/// markup — the policy-on result is exactly the query, and the policy-off
/// result is empty.
pub proof fn lemma_empty_response(q: Seq<char>, with_query: bool, r: Seq<Seq<char>>)
    requires
        is_normalized(Seq::<Seq<char>>::empty(), q, with_query, r),
    ensures
        with_query ==> r =~= seq![q],
        !with_query ==> r =~= Seq::<Seq<char>>::empty(),
{
    let none = Seq::<Seq<char>>::empty();
    assert forall|x: Seq<char>| !none.to_set().contains(x) by {
        if none.contains(x) {
            let k = choose|k: int| 0 <= k < none.len() && none[k] == x;
        }
    }
    if with_query {
        let t = r.drop_first();
        if t.len() > 0 {
            assert(t.contains(t[0]));
            assert(t.to_set().contains(t[0]));
            assert(none.to_set().remove(q).contains(t[0]));
        }
        assert(r.len() == 1);
    } else {
        if r.len() > 0 {
            assert(r.contains(r[0]));
            assert(r.to_set().contains(r[0]));
        }
    }
}

/// Normalization with the policy on is idempotent: its output, fed back in as
/// the candidate list, normalizes to itself.
pub proof fn lemma_normalize_idempotent(cs: Seq<Seq<char>>, q: Seq<char>, r: Seq<Seq<char>>)
    requires
        is_normalized(cs, q, true, r),
    ensures
        is_normalized(r, q, true, r),
{
    let t = r.drop_first();
    assert forall|x: Seq<char>| t.to_set().contains(x) implies r.to_set().remove(q).contains(
        x,
    ) by {
        let k = choose|k: int| 0 <= k < t.len() && t[k] == x;
        assert(r[k + 1] == x);
        assert(r.contains(x));
        assert(!cs.to_set().remove(q).contains(q));
    }
    assert forall|x: Seq<char>| r.to_set().remove(q).contains(x) implies t.to_set().contains(
        x,
    ) by {
        let k = choose|k: int| 0 <= k < r.len() && r[k] == x;
        if k == 0 {
            assert(x == q);
        } else {
            assert(t[k - 1] == x);
            assert(t.contains(x));
        }
    }
    assert(t.to_set() =~= r.to_set().remove(q));
}

} // verus!
